//! A tree-walking evaluator for a small dynamically-typed scripting language:
//! variables with lexical scope, blocks, `if`/`while`/`for`, first-class
//! functions and lambdas that close over their defining scope, shared mutable
//! lists, and a handful of built-ins.
//!
//! The crate is laid out along the pipeline: `scanner` turns source bytes into
//! tokens, `parser` turns tokens into a statement tree, `resolver` walks the
//! tree once and records a hop count for every variable reference it can
//! place, and `interpreter` executes the tree against `environment`'s scope
//! chain, producing printed lines and a unified success-or-signal outcome.
//! `session` wraps the pipeline for one-shot runs and for line-by-line
//! interactive use with snapshot-and-roll-back. Doubles are carried as IEEE-754
//! bit patterns; whatever can be decided at the bit level (zero tests,
//! ordering, negation) is decided here, and rounding arithmetic comes from a
//! `FloatHost` the embedder supplies.

#![allow(non_snake_case)]

mod ast;
mod environment;
mod func;
mod host;
mod interpreter;
mod parser;
mod resolver;
mod scanner;
mod semantics;
mod session;
mod support;
mod token;
mod transcript;

pub use ast::expr_like;
pub use ast::exprs_like;
pub use ast::lit_like;
pub use ast::stmt_like;
pub use ast::stmts_like;
pub use ast::token_like;
pub use ast::tokens_like;
pub use ast::BreakResult;
pub use ast::Diagnostic;
pub use ast::ErrorKind;
pub use ast::Expression;
pub use ast::Lit;
pub use ast::Statement;
pub use ast::Value;
pub use environment::Binding;
pub use environment::Environment;
pub use environment::Scope;
pub use func::Builtin;
pub use func::Callable;
pub use func::Function;
pub use func::Lambda;
pub use host::FloatHost;
pub use interpreter::lemma_alias_sees_append;
pub use interpreter::lemma_copy_breaks_alias;
pub use interpreter::lemma_variable_agreement;
pub use interpreter::Interpreter;
pub use interpreter::LocalSlot;
pub use parser::Parser;
pub use resolver::distance_in;
pub use resolver::frame_has;
pub use resolver::Frame;
pub use resolver::Resolver;
pub use scanner::scan;
pub use scanner::tokens_wf;
pub use scanner::Scanner;
pub use semantics::dec_rep;
pub use semantics::int_arith;
pub use semantics::int_binary;
pub use semantics::int_to_bytes;
pub use semantics::lemma_trunc_div_rem;
pub use semantics::trunc_div;
pub use semantics::trunc_rem;
pub use session::resolver_model;
pub use session::run_source;
pub use session::state_model;
pub use session::Session;
pub use support::bytes_eq;
pub use support::copy_vec;
pub use token::Token;
pub use token::TokenKind;
pub use transcript::clean_transcript;
pub use transcript::strip_ansi_of;
