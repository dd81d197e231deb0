use dinglebob::run_source;
use dinglebob::Diagnostic;
use dinglebob::ErrorKind;
use dinglebob::FloatHost;

struct RealHost;

impl FloatHost for RealHost {
    fn f_add(&self, a: u64, b: u64) -> u64 {
        (f64::from_bits(a) + f64::from_bits(b)).to_bits()
    }
    fn f_sub(&self, a: u64, b: u64) -> u64 {
        (f64::from_bits(a) - f64::from_bits(b)).to_bits()
    }
    fn f_mul(&self, a: u64, b: u64) -> u64 {
        (f64::from_bits(a) * f64::from_bits(b)).to_bits()
    }
    fn f_div(&self, a: u64, b: u64) -> u64 {
        (f64::from_bits(a) / f64::from_bits(b)).to_bits()
    }
    fn f_rem(&self, a: u64, b: u64) -> u64 {
        (f64::from_bits(a) % f64::from_bits(b)).to_bits()
    }
    fn f_from_int(&self, n: i128) -> u64 {
        (n as f64).to_bits()
    }
    fn f_parse(&self, digits: &Vec<u8>) -> Option<u64> {
        std::str::from_utf8(digits).ok()?.parse::<f64>().ok().map(|f| f.to_bits())
    }
    fn f_render(&self, a: u64) -> Vec<u8> {
        format!("{}", f64::from_bits(a)).into_bytes()
    }
    fn now_seconds(&self) -> u64 {
        std::time::SystemTime::now()
            .duration_since(std::time::UNIX_EPOCH)
            .map(|d| d.as_secs_f64())
            .unwrap_or(0.0)
            .to_bits()
    }
}

fn run(src: &str) -> (Vec<String>, Result<(), Diagnostic>) {
    let bytes = src.as_bytes().to_vec();
    let (output, outcome) = run_source(RealHost, &bytes);
    let lines = output
        .into_iter()
        .map(|l| String::from_utf8(l).expect("printed line should be text"))
        .collect();
    (lines, outcome)
}

fn run_ok(src: &str) -> Vec<String> {
    let (lines, outcome) = run(src);
    assert!(outcome.is_ok(), "program failed: {:?}", outcome);
    lines
}

fn run_err(src: &str) -> ErrorKind {
    let (_, outcome) = run(src);
    outcome.expect_err("program should have failed").kind
}

#[test]
fn shadowing_inner_block_prints_inner_then_outer() {
    let lines = run_ok("let x = 1; { let x = 2; print x; } print x;");
    assert_eq!(lines, vec!["2", "1"]);
}

#[test]
fn shadowing_loop_variable_is_reusable() {
    let lines = run_ok(
        "let i = 9; { let i = 0; while i < 2 { print i; i = i + 1; } } print i;",
    );
    assert_eq!(lines, vec!["0", "1", "9"]);
}

#[test]
fn closure_reads_definition_environment() {
    let lines = run_ok(
        "define make() { let v = 10; return lambda() { return v; }; } \
         let f = make(); { let v = 99; print f(); }",
    );
    assert_eq!(lines, vec!["10"]);
}

#[test]
fn closure_counter_keeps_its_own_state() {
    let lines = run_ok(
        "define makeCounter() { let count = 0; \
           return lambda() { count = count + 1; return count; }; } \
         let c = makeCounter(); print c(); print c(); print c();",
    );
    assert_eq!(lines, vec!["1", "2", "3"]);
}

#[test]
fn resolver_and_runtime_agree_on_nested_shadowing() {
    let lines = run_ok(
        "define wrap() { let a = 1; { let a = 2; { print a; } } { print a; } return 0; } wrap();",
    );
    assert_eq!(lines, vec!["2", "1"]);
}

#[test]
fn list_aliasing_shares_mutation() {
    let lines = run_ok(
        "let a = [1, 2]; let b = a; append(a, 3); print len(b); print b[2];",
    );
    assert_eq!(lines, vec!["3", "3"]);
}

#[test]
fn copy_breaks_list_aliasing() {
    let lines = run_ok(
        "let a = [1, 2]; let c = copy(a); append(a, 9); print len(c); print len(a);",
    );
    assert_eq!(lines, vec!["2", "3"]);
}

#[test]
fn integer_division_truncates() {
    let lines = run_ok("print 5 / 2;");
    assert_eq!(lines, vec!["2"]);
}

#[test]
fn float_division_is_exact_at_the_machine() {
    let lines = run_ok("print 5.0 / 2;");
    assert_eq!(lines, vec!["2.5"]);
}

#[test]
fn integer_division_by_zero_fails() {
    assert_eq!(run_err("5 / 0;"), ErrorKind::DivisionByZero);
}

#[test]
fn float_division_by_zero_fails() {
    assert_eq!(run_err("5.0 / 0.0;"), ErrorKind::DivisionByZero);
}

#[test]
fn mixed_division_by_zero_fails_both_ways() {
    assert_eq!(run_err("5.0 / 0;"), ErrorKind::DivisionByZero);
    assert_eq!(run_err("5 / 0.0;"), ErrorKind::DivisionByZero);
}

#[test]
fn break_outside_loop_is_misplaced_control_flow() {
    assert_eq!(run_err("break;"), ErrorKind::MisplacedControlFlow);
}

#[test]
fn return_outside_function_is_misplaced_control_flow() {
    assert_eq!(run_err("return 1;"), ErrorKind::MisplacedControlFlow);
}

#[test]
fn arity_mismatch_fails_exact_match_succeeds() {
    let prog = "define two(a, b) { return a; } ";
    assert_eq!(run_err(&format!("{} two(1);", prog)), ErrorKind::ArityError);
    assert_eq!(run_err(&format!("{} two(1, 2, 3);", prog)), ErrorKind::ArityError);
    let lines = run_ok(&format!("{} print two(1, \"s\");", prog));
    assert_eq!(lines, vec!["1"]);
}

#[test]
fn builtin_arity_is_checked() {
    assert_eq!(run_err("len();"), ErrorKind::ArityError);
    assert_eq!(run_err("append([1]);"), ErrorKind::ArityError);
    assert_eq!(run_err("timeit(1);"), ErrorKind::ArityError);
}

#[test]
fn undefined_variable_is_reported() {
    assert_eq!(run_err("print nope;"), ErrorKind::UndefinedVariable);
}

#[test]
fn assignment_to_undeclared_name_fails() {
    assert_eq!(run_err("x = 1;"), ErrorKind::UndefinedVariable);
}

#[test]
fn duplicate_declaration_in_block_is_caught_by_resolver() {
    assert_eq!(run_err("{ let a = 1; let a = 2; }"), ErrorKind::DuplicateDeclaration);
}

#[test]
fn duplicate_declaration_at_top_level_is_caught_at_definition() {
    assert_eq!(run_err("let a = 1; let a = 2;"), ErrorKind::DuplicateDeclaration);
}

#[test]
fn invalid_assignment_target_is_rejected() {
    assert_eq!(run_err("1 = 2;"), ErrorKind::InvalidAssignmentTarget);
}

#[test]
fn index_out_of_bounds_is_an_error_not_a_clamp() {
    assert_eq!(run_err("let a = [1, 2]; a[2];"), ErrorKind::IndexOutOfBounds);
    assert_eq!(run_err("let a = [1, 2]; a[0 - 1];"), ErrorKind::IndexOutOfBounds);
}

#[test]
fn indexing_needs_a_list_and_an_integer_key() {
    assert_eq!(run_err("let a = 1; a[0];"), ErrorKind::TypeError);
    assert_eq!(run_err("let a = [1]; a[true];"), ErrorKind::TypeError);
}

#[test]
fn index_read_and_write() {
    let lines = run_ok("let a = [10, 20]; a[1] = 7; print a[1]; print a[0];");
    assert_eq!(lines, vec!["7", "10"]);
}

#[test]
fn integer_overflow_is_an_error_not_a_crash() {
    assert_eq!(
        run_err("170141183460469231731687303715884105727 + 1;"),
        ErrorKind::IntegerOverflow
    );
    assert_eq!(
        run_err("0 - 170141183460469231731687303715884105727 - 2;"),
        ErrorKind::IntegerOverflow
    );
}

#[test]
fn string_concatenation_renders_right_operand() {
    let lines = run_ok(
        "print \"v=\" + 1; print \"f=\" + 2.5; print \"b=\" + true; print \"n=\" + none; \
         print \"ab\" + \"cd\";",
    );
    assert_eq!(lines, vec!["v=1", "f=2.5", "b=true", "n=none", "abcd"]);
}

#[test]
fn equality_never_fails_and_is_per_tag() {
    let lines = run_ok(
        "print 1 == 1; print 1 == \"1\"; print 1 == 1.0; print \"ab\" == \"ab\"; \
         print none == none; print true != false;",
    );
    assert_eq!(lines, vec!["true", "false", "false", "true", "true", "true"]);
}

#[test]
fn list_equality_is_aliasing() {
    let lines = run_ok(
        "let a = [1]; let b = a; let c = [1]; print a == b; print a == c;",
    );
    assert_eq!(lines, vec!["true", "false"]);
}

#[test]
fn ordering_requires_one_numeric_tag() {
    let lines = run_ok("print 1 < 2; print 2.5 > 1.5;");
    assert_eq!(lines, vec!["true", "true"]);
    assert_eq!(run_err("1 < 2.0;"), ErrorKind::TypeError);
    assert_eq!(run_err("\"a\" < \"b\";"), ErrorKind::TypeError);
}

#[test]
fn unary_operators() {
    let lines = run_ok("print -(3); print -(2.5); print !true;");
    assert_eq!(lines, vec!["-3", "-2.5", "false"]);
    assert_eq!(run_err("-true;"), ErrorKind::TypeError);
    assert_eq!(run_err("!1;"), ErrorKind::TypeError);
}

#[test]
fn truthiness_drives_conditionals() {
    let lines = run_ok(
        "if 0 { print 1; } else { print 2; } \
         if 0.0 { print 3; } else { print 4; } \
         if none { print 5; } else { print 6; } \
         if \"\" { print 7; } else { print 8; } \
         if [ ] { print 9; } else { print 10; }",
    );
    assert_eq!(lines, vec!["2", "4", "6", "7", "9"]);
}

#[test]
fn logical_operators_short_circuit_and_return_the_operand() {
    let lines = run_ok("print 0 or 5; print 1 and 2; print 0 and nope; print 3 or nope;");
    assert_eq!(lines, vec!["5", "2", "0", "3"]);
}

#[test]
fn while_loop_with_break() {
    let lines = run_ok(
        "let i = 0; while i < 10 { i = i + 1; if i == 3 { break; } } print i;",
    );
    assert_eq!(lines, vec!["3"]);
}

#[test]
fn for_loop_desugars_to_while() {
    let lines = run_ok("for (let i = 0; i < 3; i = i + 1) { print i; }");
    assert_eq!(lines, vec!["0", "1", "2"]);
}

#[test]
fn recursion_works_through_the_declaration_scope() {
    let lines = run_ok(
        "define fib(n) { if n < 2 { return n; } return fib(n - 1) + fib(n - 2); } print fib(10);",
    );
    assert_eq!(lines, vec!["55"]);
}

#[test]
fn runaway_recursion_is_a_resource_error() {
    assert_eq!(run_err("define f(n) { return f(n + 1); } f(0);"), ErrorKind::ResourceLimit);
}

#[test]
fn function_body_without_return_yields_none() {
    let lines = run_ok("define f() { let a = 1; } print f();");
    assert_eq!(lines, vec!["none"]);
}

#[test]
fn break_escaping_a_function_body_is_reported() {
    assert_eq!(
        run_err("define f() { break; } while true { f(); }"),
        ErrorKind::MisplacedControlFlow
    );
}

#[test]
fn calling_a_non_callable_fails() {
    assert_eq!(run_err("let x = 3; x();"), ErrorKind::TypeError);
}

#[test]
fn builtin_abs_widens_integers_to_float() {
    let lines = run_ok("print abs(0 - 5); print abs(2.5); print abs(0.0 - 2.5);");
    assert_eq!(lines, vec!["5", "2.5", "2.5"]);
}

#[test]
fn builtin_len_requires_a_list() {
    assert_eq!(run_err("len(1);"), ErrorKind::TypeError);
    let lines = run_ok("print len([ ]); print len([1, 2, 3]);");
    assert_eq!(lines, vec!["0", "3"]);
}

#[test]
fn builtin_concat_joins_into_a_fresh_list() {
    let lines = run_ok(
        "let a = [1]; let b = [2, 3]; let c = concat(a, b); \
         print c; append(a, 9); print c;",
    );
    assert_eq!(lines, vec!["[1, 2, 3]", "[1, 2, 3]"]);
}

#[test]
fn append_returns_the_same_list_for_chaining() {
    let lines = run_ok("let a = [1]; print len(append(append(a, 2), 3)); print a;");
    assert_eq!(lines, vec!["3", "[1, 2, 3]"]);
}

#[test]
fn timeit_yields_a_positive_float() {
    let lines = run_ok("print timeit() > 0.0;");
    assert_eq!(lines, vec!["true"]);
}

#[test]
fn float_remainder_follows_the_machine() {
    let lines = run_ok("print 7.5 % 2.0;");
    assert_eq!(lines, vec!["1.5"]);
}

#[test]
fn integer_remainder_by_zero_fails() {
    assert_eq!(run_err("5 % 0;"), ErrorKind::DivisionByZero);
}

#[test]
fn printing_callables_and_lambdas() {
    let lines = run_ok("define foo(a) { } print foo; print lambda(x, y) { };");
    assert_eq!(lines, vec!["<fn foo>", "Lambda(x,y)"]);
}

#[test]
fn printing_large_negative_integers_exactly() {
    let lines = run_ok("print 0 - 170141183460469231731687303715884105727;");
    assert_eq!(lines, vec!["-170141183460469231731687303715884105727"]);
}

#[test]
fn nested_list_printing_elides_cycles() {
    let lines = run_ok("let a = [1]; append(a, a); print len(a);");
    assert_eq!(lines, vec!["2"]);
}

#[test]
fn comments_and_whitespace_are_skipped() {
    let lines = run_ok("# a comment line\nprint 1; # trailing\nprint 2;");
    assert_eq!(lines, vec!["1", "2"]);
}

#[test]
fn unterminated_string_is_a_scan_error() {
    assert_eq!(run_err("print \"oops;"), ErrorKind::ScanError);
}

#[test]
fn unexpected_character_is_a_scan_error() {
    assert_eq!(run_err("let a = 1 @ 2;"), ErrorKind::ScanError);
}

#[test]
fn missing_semicolon_is_a_parse_error() {
    assert_eq!(run_err("let a = 1"), ErrorKind::ParseError);
}

#[test]
fn malformed_number_is_a_parse_error() {
    assert_eq!(run_err("print 1.2.3;"), ErrorKind::ParseError);
}

#[test]
fn statement_after_error_does_not_run() {
    let (lines, outcome) = run("print 1; print nope; print 2;");
    assert_eq!(outcome.unwrap_err().kind, ErrorKind::UndefinedVariable);
    assert_eq!(lines, vec!["1"]);
}

#[test]
fn function_declared_in_block_is_local_to_it() {
    assert_eq!(
        run_err("{ define f() { return 1; } f(); } f();"),
        ErrorKind::UndefinedVariable
    );
}

#[test]
fn empty_source_runs_and_prints_nothing() {
    assert_eq!(run_ok(""), Vec::<String>::new());
}

#[test]
fn declaration_without_initializer_defaults_to_none() {
    let lines = run_ok("let x; print x;");
    assert_eq!(lines, vec!["none"]);
}

#[test]
fn nested_lists_render_recursively() {
    let lines = run_ok("print [1, [2, \"a\"], none];");
    assert_eq!(lines, vec!["[1, [2, a], none]"]);
}

#[test]
fn for_loop_with_empty_clauses() {
    let lines = run_ok("for (;;) { print 1; break; }");
    assert_eq!(lines, vec!["1"]);
}

#[test]
fn string_literals_may_span_lines() {
    let lines = run_ok("print \"a\nb\";");
    assert_eq!(lines, vec!["a\nb"]);
}

#[test]
fn lambda_called_immediately() {
    let lines = run_ok("print lambda(x) { return x * 2; } (21);");
    assert_eq!(lines, vec!["42"]);
}

#[test]
fn negative_integer_division_truncates_toward_zero() {
    let lines = run_ok("print (0 - 7) / 2; print 7 / (0 - 2);");
    assert_eq!(lines, vec!["-3", "-3"]);
}

#[test]
fn integer_remainder_keeps_the_dividend_sign() {
    let lines = run_ok("print (0 - 7) % 2; print 7 % (0 - 2);");
    assert_eq!(lines, vec!["-1", "1"]);
}

#[test]
fn string_concatenation_renders_lists_and_callables() {
    let lines = run_ok("print \"l=\" + [1, 2]; define foo() { } print \"f=\" + foo;");
    assert_eq!(lines, vec!["l=[1, 2]", "f=<fn foo>"]);
}

#[test]
fn duplicate_in_top_level_function_body_is_caught_before_execution() {
    let (lines, outcome) = run("define f() { let a = 1; let a = 2; } print 0;");
    assert_eq!(outcome.unwrap_err().kind, ErrorKind::DuplicateDeclaration);
    assert_eq!(lines, Vec::<String>::new());
}

#[test]
fn duplicate_in_top_level_lambda_body_is_caught_before_execution() {
    let (lines, outcome) = run("print 1; let g = lambda() { let b = 1; let b = 2; };");
    assert_eq!(outcome.unwrap_err().kind, ErrorKind::DuplicateDeclaration);
    assert_eq!(lines, Vec::<String>::new());
}
