use vstd::prelude::*;

use crate::ast::Statement;
use crate::token::Token;

verus! {

/// The host-implemented primitives, each with a fixed arity.
#[derive(PartialEq, Eq, Structural, Debug, Clone, Copy)]
pub enum Builtin {
    /// `timeit()`: the current time in seconds, as a double.
    Timeit,
    /// `abs(number)`: absolute value, as a double.
    Abs,
    /// `len(list)`: the number of elements, as an integer.
    Len,
    /// `copy(list)`: a new list with the same elements and independent storage.
    CopyList,
    /// `append(list, value)`: push in place; returns the same list.
    Append,
    /// `concat(list, list)`: a new list holding both element runs.
    Concat,
}

pub open spec fn builtin_arity(b: Builtin) -> int {
    match b {
        Builtin::Timeit => 0,
        Builtin::Abs => 1,
        Builtin::Len => 1,
        Builtin::CopyList => 1,
        Builtin::Append => 2,
        Builtin::Concat => 2,
    }
}

pub fn builtin_arity_of(b: Builtin) -> (r: usize)
    ensures
        r == builtin_arity(b),
{
    match b {
        Builtin::Timeit => 0,
        Builtin::Abs => 1,
        Builtin::Len => 1,
        Builtin::CopyList => 1,
        Builtin::Append => 2,
        Builtin::Concat => 2,
    }
}

/// A user-declared function: its name, parameters, body, and the index of the
/// scope that was current at its declaration site. That stored scope index is
/// the closure: calls chain their scope to it, never to the caller's scope.
pub struct Function {
    pub name: Token,
    pub args_list: Vec<Token>,
    pub statement_list: Vec<Statement>,
    pub env: usize,
}

/// An anonymous function; identical to `Function` but for the missing name.
pub struct Lambda {
    pub args_list: Vec<Token>,
    pub statement_list: Vec<Statement>,
    pub env: usize,
}

/// Anything a call expression can invoke.
pub enum Callable {
    Builtin(Builtin),
    Function(Function),
    Lambda(Lambda),
}

/// No two of these tokens spell the same name (so binding them one by one as
/// parameters cannot trip the duplicate-declaration check).
pub open spec fn distinct_names(params: Seq<Token>) -> bool {
    forall|i: int, j: int| 0 <= i < j < params.len() ==> params[i].lexeme@ != params[j].lexeme@
}

impl Callable {
    /// The scope a declared callable captured, if it is one.
    pub open spec fn captured_env(self) -> Option<usize> {
        match self {
            Callable::Builtin(_) => None,
            Callable::Function(f) => Some(f.env),
            Callable::Lambda(l) => Some(l.env),
        }
    }
}

} // verus!
