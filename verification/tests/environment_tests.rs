use dinglebob::Environment;
use dinglebob::ErrorKind;
use dinglebob::Token;
use dinglebob::TokenKind;
use dinglebob::Value;

fn ident(name: &str, id: u64) -> Token {
    Token { kind: TokenKind::Identifier, lexeme: name.as_bytes().to_vec(), line: 1, id }
}

#[test]
fn undefined_variable_and_resolver_inconsistency_are_distinct() {
    let mut env = Environment::new();
    let x = ident("x", 0);
    // A dynamic search for a name nobody declared: a language-level error.
    assert_eq!(env.get(0, &x).unwrap_err().kind, ErrorKind::UndefinedVariable);
    // A resolved lookup whose hop count overruns the chain: an internal
    // disagreement, reported as its own kind.
    assert_eq!(env.get_at(0, &x, 3).unwrap_err().kind, ErrorKind::ResolverInconsistency);
    env.define(0, &x, Value::Int(5)).unwrap();
    assert_eq!(env.get(0, &x).unwrap(), Value::Int(5));
    assert_eq!(env.get_at(0, &x, 0).unwrap(), Value::Int(5));
    // A hop count that lands one scope past the declaration: inconsistency,
    // not a missing variable.
    assert_eq!(env.get_at(0, &x, 1).unwrap_err().kind, ErrorKind::ResolverInconsistency);
}

#[test]
fn define_rejects_a_second_declaration_in_one_scope_only() {
    let mut env = Environment::new();
    let x = ident("x", 0);
    env.define(0, &x, Value::Int(1)).unwrap();
    assert_eq!(
        env.define(0, &x, Value::Int(2)).unwrap_err().kind,
        ErrorKind::DuplicateDeclaration
    );
    // The same name in a child scope is a fresh declaration, not a duplicate.
    let inner = env.push_scope(0);
    env.define(inner, &x, Value::Int(2)).unwrap();
    assert_eq!(env.get(inner, &x).unwrap(), Value::Int(2));
    assert_eq!(env.get(0, &x).unwrap(), Value::Int(1));
}

#[test]
fn get_at_reads_exactly_the_scope_the_hops_name() {
    let mut env = Environment::new();
    let x = ident("x", 0);
    env.define(0, &x, Value::Int(1)).unwrap();
    let inner = env.push_scope(0);
    env.define(inner, &x, Value::Int(2)).unwrap();
    assert_eq!(env.get_at(inner, &x, 0).unwrap(), Value::Int(2));
    assert_eq!(env.get_at(inner, &x, 1).unwrap(), Value::Int(1));
    // Dynamic search stops at the innermost binding.
    assert_eq!(env.get(inner, &x).unwrap(), Value::Int(2));
}

#[test]
fn assign_overwrites_the_nearest_binding() {
    let mut env = Environment::new();
    let x = ident("x", 0);
    let y = ident("y", 1);
    env.define(0, &x, Value::Int(1)).unwrap();
    let inner = env.push_scope(0);
    env.assign(inner, &x, Value::Int(7)).unwrap();
    assert_eq!(env.get(0, &x).unwrap(), Value::Int(7));
    assert_eq!(
        env.assign(inner, &y, Value::Int(1)).unwrap_err().kind,
        ErrorKind::UndefinedVariable
    );
}

#[test]
fn clone_is_an_independent_snapshot() {
    let mut env = Environment::new();
    let x = ident("x", 0);
    env.define(0, &x, Value::Int(1)).unwrap();
    let snapshot = env.clone();
    env.assign(0, &x, Value::Int(9)).unwrap();
    assert_eq!(env.get(0, &x).unwrap(), Value::Int(9));
    assert_eq!(snapshot.get(0, &x).unwrap(), Value::Int(1));
}

#[test]
fn function_scopes_chain_to_the_captured_scope() {
    // The chain a closure call builds: global -> defining scope -> call scope.
    // The call scope's enclosing scope is the *defining* one, wherever the
    // call happens from.
    let mut env = Environment::new();
    let v = ident("v", 0);
    let defining = env.push_scope(0);
    env.define(defining, &v, Value::Int(10)).unwrap();
    let elsewhere = env.push_scope(0);
    env.define(elsewhere, &v, Value::Int(99)).unwrap();
    let call = env.push_scope(defining);
    assert_eq!(env.get(call, &v).unwrap(), Value::Int(10));
}
