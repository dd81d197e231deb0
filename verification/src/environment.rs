use vstd::prelude::*;

use crate::ast::Diagnostic;
use crate::ast::ErrorKind;
use crate::ast::Value;
use crate::support::bytes_eq;
use crate::support::copy_vec;
use crate::token::Token;

verus! {

/// One name-to-value binding inside a scope.
pub struct Binding {
    pub name: Vec<u8>,
    pub value: Value,
}

/// The mathematical content of a run of bindings: the finite map that binds
/// each name to the value it was given last. In a well-formed scope names are
/// unique, so "last" is also "only".
pub open spec fn as_map(s: Seq<Binding>) -> Map<Seq<u8>, Value>
    decreases s.len(),
{
    if s.len() == 0 {
        Map::empty()
    } else {
        as_map(s.drop_last()).insert(s.last().name@, s.last().value)
    }
}

pub open spec fn unique_names(s: Seq<Binding>) -> bool {
    forall|i: int, j: int| 0 <= i < j < s.len() ==> s[i].name@ != s[j].name@
}

pub proof fn lemma_as_map_domain(s: Seq<Binding>, n: Seq<u8>)
    ensures
        as_map(s).contains_key(n) <==> exists|i: int| 0 <= i < s.len() && s[i].name@ == n,
    decreases s.len(),
{
    if s.len() > 0 {
        lemma_as_map_domain(s.drop_last(), n);
        if s.last().name@ == n {
            assert(s[s.len() - 1].name@ == n);
        } else {
            if as_map(s).contains_key(n) {
                let i = choose|i: int| 0 <= i < s.drop_last().len() && s.drop_last()[i].name@ == n;
                assert(s[i].name@ == n);
            }
            if exists|i: int| 0 <= i < s.len() && s[i].name@ == n {
                let i = choose|i: int| 0 <= i < s.len() && s[i].name@ == n;
                assert(s.drop_last()[i].name@ == n);
            }
        }
    }
}

pub proof fn lemma_as_map_get(s: Seq<Binding>, i: int)
    requires
        unique_names(s),
        0 <= i < s.len(),
    ensures
        as_map(s).contains_key(s[i].name@),
        as_map(s)[s[i].name@] == s[i].value,
    decreases s.len(),
{
    if i == s.len() - 1 {
    } else {
        lemma_as_map_get(s.drop_last(), i);
        assert(s.drop_last()[i] == s[i]);
        assert(s[i].name@ != s.last().name@);
    }
}

/// Two runs of bindings with the same names and values have the same map.
pub proof fn lemma_as_map_congruent(a: Seq<Binding>, b: Seq<Binding>)
    requires
        a.len() == b.len(),
        forall|i: int| 0 <= i < a.len() ==> a[i].name@ == b[i].name@ && a[i].value == b[i].value,
    ensures
        as_map(a) == as_map(b),
        unique_names(a) <==> unique_names(b),
    decreases a.len(),
{
    if a.len() > 0 {
        lemma_as_map_congruent(a.drop_last(), b.drop_last());
        assert(as_map(a) =~= as_map(b));
    }
    if unique_names(a) {
        assert forall|i: int, j: int| 0 <= i < j < b.len() implies b[i].name@ != b[j].name@ by {
            assert(a[i].name@ == b[i].name@ && a[j].name@ == b[j].name@);
        }
    }
    if unique_names(b) {
        assert forall|i: int, j: int| 0 <= i < j < a.len() implies a[i].name@ != a[j].name@ by {
            assert(a[i].name@ == b[i].name@ && a[j].name@ == b[j].name@);
        }
    }
}

/// Replacing the value at one binding site rewrites exactly that name's entry.
pub proof fn lemma_as_map_update(s: Seq<Binding>, j: int, b: Binding)
    requires
        unique_names(s),
        0 <= j < s.len(),
        b.name@ == s[j].name@,
    ensures
        as_map(s.update(j, b)) == as_map(s).insert(b.name@, b.value),
        unique_names(s.update(j, b)),
    decreases s.len(),
{
    let t = s.update(j, b);
    if j == s.len() - 1 {
        assert(t.drop_last() =~= s.drop_last());
        assert(as_map(t) =~= as_map(s).insert(b.name@, b.value));
    } else {
        lemma_as_map_update(s.drop_last(), j, b);
        assert(t.drop_last() =~= s.drop_last().update(j, b));
        assert(s.last().name@ != b.name@);
        assert(t.last() == s.last());
        assert(as_map(t) =~= as_map(s).insert(b.name@, b.value));
    }
}

/// One frame of the scope chain: a link to the enclosing scope (absent only
/// for the global scope) and the bindings made in this scope.
pub struct Scope {
    pub parent: Option<usize>,
    pub bindings: Vec<Binding>,
}

impl Scope {
    pub open spec fn names_unique(self) -> bool {
        unique_names(self.bindings@)
    }
}

impl View for Scope {
    type V = Map<Seq<u8>, Value>;

    open spec fn view(&self) -> Map<Seq<u8>, Value> {
        as_map(self.bindings@)
    }
}

/// Find the index of the binding for `name`, if one exists.
fn find_binding(bindings: &Vec<Binding>, name: &Vec<u8>) -> (r: Option<usize>)
    ensures
        match r {
            Some(j) => j < bindings@.len() && bindings@[j as int].name@ == name@,
            None => forall|i: int| 0 <= i < bindings@.len() ==> bindings@[i].name@ != name@,
        },
{
    let n = bindings.len();
    let mut i: usize = 0;
    while i < n
        invariant
            n == bindings@.len(),
            i <= n,
            forall|j: int| 0 <= j < i ==> bindings@[j].name@ != name@,
        decreases n - i,
    {
        if bytes_eq(&bindings[i].name, name) {
            return Some(i);
        }
        i += 1;
    }
    None
}

/// The whole scope chain, held as an arena: a scope is addressed by its index,
/// and a closure can keep a scope alive simply by remembering that index. A
/// scope's parent always has a smaller index, so every chain reaches the
/// global scope (index 0) in finitely many hops.
pub struct Environment {
    pub scopes: Vec<Scope>,
}

impl Environment {
    pub open spec fn depth(self) -> nat {
        self.scopes@.len()
    }

    pub open spec fn wf(self) -> bool {
        &&& self.scopes@.len() >= 1
        &&& forall|i: int| 0 <= i < self.scopes@.len() ==> (#[trigger] self.scopes@[i]).names_unique()
        &&& self.scopes@[0].parent is None
        &&& forall|i: int|
            1 <= i < self.scopes@.len() ==> ((#[trigger] self.scopes@[i].parent) matches Some(p) && p < i)
    }

    /// The scope that a name search starting at scope `i` stops in, if any.
    pub open spec fn resolve_scope(self, i: int, name: Seq<u8>) -> Option<int>
        decreases i,
    {
        if 0 <= i < self.scopes@.len() {
            if self.scopes@[i]@.contains_key(name) {
                Some(i)
            } else {
                match self.scopes@[i].parent {
                    Some(p) => if p < i {
                        self.resolve_scope(p as int, name)
                    } else {
                        None
                    },
                    None => None,
                }
            }
        } else {
            None
        }
    }

    /// The value a dynamic name search starting at scope `i` finds, if any.
    pub open spec fn lookup(self, i: int, name: Seq<u8>) -> Option<Value> {
        match self.resolve_scope(i, name) {
            Some(k) => Some(self.scopes@[k]@[name]),
            None => None,
        }
    }

    /// The scope reached from `i` after exactly `steps` hops outward, if the
    /// chain is long enough.
    pub open spec fn ancestor(self, i: int, steps: int) -> Option<int>
        decreases steps,
    {
        if !(0 <= i < self.scopes@.len()) {
            None
        } else if steps <= 0 {
            Some(i)
        } else {
            match self.scopes@[i].parent {
                Some(p) => if p < i {
                    self.ancestor(p as int, steps - 1)
                } else {
                    None
                },
                None => None,
            }
        }
    }

    /// A name search that stops somewhere stops inside the chain, at a scope
    /// that holds the name.
    pub proof fn lemma_resolve_scope_props(self, i: int, name: Seq<u8>)
        ensures
            self.resolve_scope(i, name) matches Some(k) ==> 0 <= k < self.scopes@.len()
                && self.scopes@[k]@.contains_key(name),
        decreases i,
    {
        if 0 <= i < self.scopes@.len() {
            if self.scopes@[i]@.contains_key(name) {
            } else {
                match self.scopes@[i].parent {
                    Some(p) => {
                        if (p as int) < i {
                            self.lemma_resolve_scope_props(p as int, name);
                        }
                    },
                    None => {},
                }
            }
        }
    }

    /// Hopping outward lands inside the chain when it lands at all.
    pub proof fn lemma_ancestor_props(self, i: int, steps: int)
        ensures
            self.ancestor(i, steps) matches Some(k) ==> 0 <= k < self.scopes@.len(),
        decreases steps,
    {
        if 0 <= i < self.scopes@.len() && steps > 0 {
            match self.scopes@[i].parent {
                Some(p) => {
                    if (p as int) < i {
                        self.lemma_ancestor_props(p as int, steps - 1);
                    }
                },
                None => {},
            }
        }
    }

    /// Resolver/runtime agreement, at the scope chain itself: when a hop count
    /// `h` is faithful — no scope strictly nearer than `h` hops binds the name,
    /// and the scope exactly `h` hops out does bind it — then the resolved
    /// lookup (`get_at`'s success condition is precisely this premise) yields
    /// the very binding a dynamic name search finds: it can neither miss (a
    /// `ResolverInconsistency`) nor land on a different scope's binding.
    pub proof fn lemma_resolver_agreement(self, i: int, h: int, name: Seq<u8>)
        requires
            self.wf(),
            0 <= i < self.depth(),
            0 <= h,
            self.ancestor(i, h) matches Some(k) && self.scopes@[k]@.contains_key(name),
            forall|j: int|
                0 <= j < h ==> ((#[trigger] self.ancestor(i, j)) matches Some(m)
                    && !self.scopes@[m]@.contains_key(name)),
        ensures
            self.resolve_scope(i, name) == self.ancestor(i, h),
            self.lookup(i, name) == Some(
                self.scopes@[self.ancestor(i, h)->Some_0]@[name],
            ),
        decreases h,
    {
        if h == 0 {
        } else {
            assert(self.ancestor(i, 0) == Some(i));
            assert(!self.scopes@[i]@.contains_key(name));
            let p = self.scopes@[i].parent->Some_0;
            assert(self.ancestor(i, h) == self.ancestor(p as int, h - 1));
            assert forall|j: int| 0 <= j < h - 1 implies ((#[trigger] self.ancestor(p as int, j))
                matches Some(m) && !self.scopes@[m]@.contains_key(name)) by {
                assert(self.ancestor(i, j + 1) == self.ancestor(p as int, j));
            }
            self.lemma_resolver_agreement(p as int, h - 1, name);
        }
    }

    /// A fresh chain holding only the empty global scope.
    pub fn new() -> (e: Environment)
        ensures
            e.wf(),
            e.depth() == 1,
            e.scopes@[0].parent is None,
            e.scopes@[0]@ == Map::<Seq<u8>, Value>::empty(),
    {
        let mut scopes: Vec<Scope> = Vec::new();
        scopes.push(Scope { parent: None, bindings: Vec::new() });
        Environment { scopes }
    }

    /// Open a new scope whose enclosing scope is `parent`; returns its index.
    pub fn push_scope(&mut self, parent: usize) -> (idx: usize)
        requires
            old(self).wf(),
            parent < old(self).depth(),
        ensures
            final(self).wf(),
            idx == old(self).depth(),
            final(self).depth() == old(self).depth() + 1,
            forall|j: int| 0 <= j < old(self).depth() ==> final(self).scopes@[j] == old(self).scopes@[j],
            final(self).scopes@[idx as int].parent == Some(parent),
            final(self).scopes@[idx as int]@ == Map::<Seq<u8>, Value>::empty(),
    {
        let idx = self.scopes.len();
        self.scopes.push(Scope { parent: Some(parent), bindings: Vec::new() });
        idx
    }

    /// Declare `var` in scope `scope`. Fails, changing nothing, if that very
    /// scope already has the name; enclosing scopes do not matter.
    pub fn define(&mut self, scope: usize, var: &Token, value: Value) -> (r: Result<Value, Diagnostic>)
        requires
            old(self).wf(),
            scope < old(self).depth(),
        ensures
            final(self).wf(),
            final(self).depth() == old(self).depth(),
            forall|j: int|
                0 <= j < old(self).depth() && j != scope ==> final(self).scopes@[j] == old(self).scopes@[j],
            final(self).scopes@[scope as int].parent == old(self).scopes@[scope as int].parent,
            if old(self).scopes@[scope as int]@.contains_key(var.lexeme@) {
                r == Err::<Value, Diagnostic>(
                    Diagnostic { kind: ErrorKind::DuplicateDeclaration, line: var.line },
                ) && *final(self) == *old(self)
            } else {
                r == Ok::<Value, Diagnostic>(Value::Nil) && final(self).scopes@[scope as int]@
                    == old(self).scopes@[scope as int]@.insert(var.lexeme@, value)
            },
    {
        let ghost old_bindings = self.scopes@[scope as int].bindings@;
        proof {
            lemma_as_map_domain(old_bindings, var.lexeme@);
        }
        match find_binding(&self.scopes[scope].bindings, &var.lexeme) {
            Some(_) => Err(Diagnostic { kind: ErrorKind::DuplicateDeclaration, line: var.line }),
            None => {
                let name = copy_vec(&var.lexeme);
                let sc = &mut self.scopes[scope];
                sc.bindings.push(Binding { name, value });
                proof {
                    assert(sc.bindings@.drop_last() =~= old_bindings);
                }
                Ok(Value::Nil)
            },
        }
    }

    /// Bind `name` in scope `scope` without the duplicate check; used to seed
    /// the global scope with the built-in functions.
    pub fn define_default(&mut self, scope: usize, name: &Vec<u8>, value: Value)
        requires
            old(self).wf(),
            scope < old(self).depth(),
            !old(self).scopes@[scope as int]@.contains_key(name@),
        ensures
            final(self).wf(),
            final(self).depth() == old(self).depth(),
            forall|j: int|
                0 <= j < old(self).depth() && j != scope ==> final(self).scopes@[j] == old(self).scopes@[j],
            final(self).scopes@[scope as int].parent == old(self).scopes@[scope as int].parent,
            final(self).scopes@[scope as int]@ == old(self).scopes@[scope as int]@.insert(name@, value),
    {
        let ghost old_bindings = self.scopes@[scope as int].bindings@;
        proof {
            lemma_as_map_domain(old_bindings, name@);
        }
        let name_copy = copy_vec(name);
        let sc = &mut self.scopes[scope];
        sc.bindings.push(Binding { name: name_copy, value });
        proof {
            assert(sc.bindings@.drop_last() =~= old_bindings);
        }
    }

    /// Read the binding for `name` in the single scope `i`, if present.
    fn scope_get(&self, i: usize, name: &Vec<u8>) -> (r: Option<Value>)
        requires
            self.wf(),
            i < self.depth(),
        ensures
            r == if self.scopes@[i as int]@.contains_key(name@) {
                Some(self.scopes@[i as int]@[name@])
            } else {
                None::<Value>
            },
    {
        proof {
            lemma_as_map_domain(self.scopes@[i as int].bindings@, name@);
        }
        match find_binding(&self.scopes[i].bindings, name) {
            Some(j) => {
                proof {
                    lemma_as_map_get(self.scopes@[i as int].bindings@, j as int);
                }
                Some(self.scopes[i].bindings[j].value)
            },
            None => None,
        }
    }

    /// Dynamic lookup: search scope `scope` and then each enclosing scope.
    pub fn get(&self, scope: usize, token: &Token) -> (r: Result<Value, Diagnostic>)
        requires
            self.wf(),
            scope < self.depth(),
        ensures
            match self.lookup(scope as int, token.lexeme@) {
                Some(v) => r == Ok::<Value, Diagnostic>(v),
                None => r == Err::<Value, Diagnostic>(
                    Diagnostic { kind: ErrorKind::UndefinedVariable, line: token.line },
                ),
            },
    {
        let mut i = scope;
        loop
            invariant
                self.wf(),
                i < self.depth(),
                self.resolve_scope(scope as int, token.lexeme@) == self.resolve_scope(
                    i as int,
                    token.lexeme@,
                ),
            decreases i,
        {
            match self.scope_get(i, &token.lexeme) {
                Some(v) => {
                    return Ok(v);
                },
                None => {
                    match self.scopes[i].parent {
                        Some(p) => {
                            i = p;
                        },
                        None => {
                            return Err(
                                Diagnostic { kind: ErrorKind::UndefinedVariable, line: token.line },
                            );
                        },
                    }
                },
            }
        }
    }

    /// Resolved lookup: hop outward exactly `steps` scopes, then read `name`
    /// in that scope alone. Either kind of miss is a resolver/runtime
    /// disagreement, not a missing user variable.
    pub fn get_at(&self, scope: usize, token: &Token, steps: i32) -> (r: Result<Value, Diagnostic>)
        requires
            self.wf(),
            scope < self.depth(),
            steps >= 0,
        ensures
            match self.ancestor(scope as int, steps as int) {
                Some(k) => if self.scopes@[k]@.contains_key(token.lexeme@) {
                    r == Ok::<Value, Diagnostic>(self.scopes@[k]@[token.lexeme@])
                } else {
                    r == Err::<Value, Diagnostic>(
                        Diagnostic { kind: ErrorKind::ResolverInconsistency, line: token.line },
                    )
                },
                None => r == Err::<Value, Diagnostic>(
                    Diagnostic { kind: ErrorKind::ResolverInconsistency, line: token.line },
                ),
            },
    {
        let mut i = scope;
        let mut left = steps;
        while left > 0
            invariant
                self.wf(),
                i < self.depth(),
                0 <= left <= steps,
                self.ancestor(scope as int, steps as int) == self.ancestor(i as int, left as int),
            decreases left,
        {
            match self.scopes[i].parent {
                Some(p) => {
                    i = p;
                },
                None => {
                    return Err(
                        Diagnostic { kind: ErrorKind::ResolverInconsistency, line: token.line },
                    );
                },
            }
            left -= 1;
        }
        match self.scope_get(i, &token.lexeme) {
            Some(v) => Ok(v),
            None => Err(Diagnostic { kind: ErrorKind::ResolverInconsistency, line: token.line }),
        }
    }

    /// Overwrite the nearest existing binding for the token's name, searching
    /// outward from scope `scope`; declaring is the only way to create a
    /// binding, so a name with no binding anywhere is an error.
    pub fn assign(&mut self, scope: usize, token: &Token, value: Value) -> (r: Result<
        Value,
        Diagnostic,
    >)
        requires
            old(self).wf(),
            scope < old(self).depth(),
        ensures
            final(self).wf(),
            final(self).depth() == old(self).depth(),
            forall|j: int|
                0 <= j < old(self).depth() ==> final(self).scopes@[j].parent == old(
                    self,
                ).scopes@[j].parent,
            match old(self).resolve_scope(scope as int, token.lexeme@) {
                Some(k) => r == Ok::<Value, Diagnostic>(Value::Nil) && final(self).scopes@[k]@
                    == old(self).scopes@[k]@.insert(token.lexeme@, value) && forall|j: int|
                    0 <= j < old(self).depth() && j != k ==> final(self).scopes@[j] == old(
                        self,
                    ).scopes@[j],
                None => r == Err::<Value, Diagnostic>(
                    Diagnostic { kind: ErrorKind::UndefinedVariable, line: token.line },
                ) && *final(self) == *old(self),
            },
    {
        let mut i = scope;
        loop
            invariant
                self.wf(),
                self == old(self),
                i < self.depth(),
                old(self).resolve_scope(scope as int, token.lexeme@) == old(self).resolve_scope(
                    i as int,
                    token.lexeme@,
                ),
            decreases i,
        {
            proof {
                lemma_as_map_domain(self.scopes@[i as int].bindings@, token.lexeme@);
            }
            match find_binding(&self.scopes[i].bindings, &token.lexeme) {
                Some(j) => {
                    let ghost old_bindings = self.scopes@[i as int].bindings@;
                    let name = copy_vec(&token.lexeme);
                    let sc = &mut self.scopes[i];
                    let slot = &mut sc.bindings[j];
                    *slot = Binding { name, value };
                    proof {
                        lemma_as_map_update(
                            old_bindings,
                            j as int,
                            Binding { name: slot.name, value: slot.value },
                        );
                        assert(sc.bindings@ =~= old_bindings.update(
                            j as int,
                            Binding { name: slot.name, value: slot.value },
                        ));
                    }
                    return Ok(Value::Nil);
                },
                None => {
                    match self.scopes[i].parent {
                        Some(p) => {
                            i = p;
                        },
                        None => {
                            return Err(
                                Diagnostic { kind: ErrorKind::UndefinedVariable, line: token.line },
                            );
                        },
                    }
                },
            }
        }
    }

    /// A structurally independent copy of the whole chain: same scopes, same
    /// bindings, sharing no storage with the original. Used only for the
    /// interactive session's snapshot-and-roll-back protocol.
    pub fn clone(&self) -> (r: Environment)
        ensures
            r.depth() == self.depth(),
            forall|j: int|
                0 <= j < self.depth() ==> r.scopes@[j].parent == self.scopes@[j].parent
                    && r.scopes@[j]@ == self.scopes@[j]@ && r.scopes@[j].names_unique()
                    == self.scopes@[j].names_unique(),
            self.wf() ==> r.wf(),
    {
        let mut scopes: Vec<Scope> = Vec::new();
        let n = self.scopes.len();
        let mut i: usize = 0;
        while i < n
            invariant
                n == self.scopes@.len(),
                i <= n,
                scopes@.len() == i,
                forall|j: int|
                    0 <= j < i ==> scopes@[j].parent == self.scopes@[j].parent && scopes@[j]@
                        == self.scopes@[j]@ && scopes@[j].names_unique()
                        == self.scopes@[j].names_unique(),
            decreases n - i,
        {
            let src = &self.scopes[i];
            let mut bindings: Vec<Binding> = Vec::new();
            let m = src.bindings.len();
            let mut k: usize = 0;
            while k < m
                invariant
                    m == src.bindings@.len(),
                    k <= m,
                    bindings@.len() == k,
                    forall|j: int|
                        0 <= j < k ==> bindings@[j].name@ == src.bindings@[j].name@
                            && bindings@[j].value == src.bindings@[j].value,
                decreases m - k,
            {
                let b = &src.bindings[k];
                bindings.push(Binding { name: copy_vec(&b.name), value: b.value });
                k += 1;
            }
            proof {
                lemma_as_map_congruent(bindings@, src.bindings@);
            }
            scopes.push(Scope { parent: src.parent, bindings });
            i += 1;
        }
        Environment { scopes }
    }
}

} // verus!
