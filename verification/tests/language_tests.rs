//! Language behaviour: scoping, errors, operators, printing, natives.

use rlox::interp::{BufferPrinter, ErrorKind, Fault, Flow, Interpreter};
use rlox::parser::Parser;
use rlox::scanner::Scanner;
use rlox::value::Value;

enum Outcome {
    Printed(Vec<String>),
    Failed(Fault),
}

fn run_source(source: &str) -> Outcome {
    run_source_at(source, 0)
}

fn run_source_at(source: &str, now: i64) -> Outcome {
    let tokens = Scanner::new(source).scan_tokens().expect("scan failed");
    let mut parser = Parser::new(tokens);
    let statements = parser.parse().expect("parse failed");
    let mut interpreter = Interpreter::new(BufferPrinter::new());
    interpreter.set_clock(now);
    let environment = interpreter.new_globals_ptr();
    match interpreter.evaluate_program(environment, &statements) {
        Ok(Flow::Completed) => Outcome::Printed(interpreter.printer.lines),
        Ok(Flow::ReturnedWith(_)) => Outcome::Printed(interpreter.printer.lines),
        Err(f) => Outcome::Failed(f),
    }
}

fn printed(source: &str) -> Vec<String> {
    match run_source(source) {
        Outcome::Printed(lines) => lines,
        Outcome::Failed(_) => panic!("expected success"),
    }
}

fn failure(source: &str) -> Fault {
    match run_source(source) {
        Outcome::Printed(_) => panic!("expected a failure"),
        Outcome::Failed(f) => f,
    }
}

#[test]
fn block_scoping_undefined_after_block() {
    let f = failure("{ var a = 3; } print a;");
    assert!(matches!(
        f,
        Fault::Script(ErrorKind::UndefinedVariable(_))
    ));
}

#[test]
fn division_by_zero_is_an_error_not_a_number() {
    let f = failure("print 1 / 0;");
    assert!(matches!(f, Fault::Script(ErrorKind::DivisionByZero)));
}

#[test]
fn arity_mismatch_and_exact_call() {
    let f = failure("fun f() {} f(1);");
    assert!(matches!(
        f,
        Fault::Script(ErrorKind::ArityMismatch {
            expected: 0,
            given: 1
        })
    ));
    assert_eq!(printed("fun f() {} f(); print 9;"), vec!["9".to_string()]);
}

#[test]
fn calling_a_non_callable_value_fails() {
    let f = failure("var a = 1; a();");
    assert!(matches!(f, Fault::Script(ErrorKind::NotCallable)));
}

#[test]
fn unsupported_operator_reports_error() {
    let f = failure("print -\"x\";");
    assert!(matches!(f, Fault::Script(ErrorKind::UnsupportedOperator)));
    let g = failure("print 1 + \"x\";");
    assert!(matches!(g, Fault::Script(ErrorKind::UnsupportedOperator)));
}

#[test]
fn assignment_to_undefined_name_fails() {
    let f = failure("a = 1;");
    assert!(matches!(
        f,
        Fault::Script(ErrorKind::UndefinedVariable(_))
    ));
}

#[test]
fn truthiness_zero_and_empty_string_are_truthy() {
    assert_eq!(
        printed("if (0) print 1; else print 2;"),
        vec!["1".to_string()]
    );
    assert_eq!(
        printed("if (\"\") print 1; else print 2;"),
        vec!["1".to_string()]
    );
    assert_eq!(
        printed("if (nil) print 1; else print 2;"),
        vec!["2".to_string()]
    );
    assert_eq!(
        printed("if (false) print 1; else print 2;"),
        vec!["2".to_string()]
    );
}

#[test]
fn arithmetic_comparison_equality_and_logic() {
    assert_eq!(printed("print 6 * 7 - 2;"), vec!["40".to_string()]);
    assert_eq!(printed("print 7 / 2;"), vec!["3".to_string()]);
    assert_eq!(printed("print 1 < 2;"), vec!["true".to_string()]);
    assert_eq!(printed("print 2 <= 1;"), vec!["false".to_string()]);
    assert_eq!(printed("print 1 == 1;"), vec!["true".to_string()]);
    assert_eq!(printed("print 1 == \"1\";"), vec!["false".to_string()]);
    assert_eq!(printed("print 1 != 2;"), vec!["true".to_string()]);
    assert_eq!(
        printed("print \"ab\" + \"cd\";"),
        vec!["abcd".to_string()]
    );
    assert_eq!(printed("print false or 5;"), vec!["5".to_string()]);
    assert_eq!(printed("print 4 or 5;"), vec!["4".to_string()]);
    assert_eq!(printed("print 4 and 5;"), vec!["5".to_string()]);
    assert_eq!(printed("print nil and 5;"), vec!["nil".to_string()]);
    assert_eq!(printed("print !nil;"), vec!["true".to_string()]);
    assert_eq!(printed("print -(3 + 4);"), vec!["-7".to_string()]);
}

#[test]
fn addition_wraps_at_the_int64_boundary() {
    assert_eq!(
        printed("print 9223372036854775807 + 1;"),
        vec!["-9223372036854775808".to_string()]
    );
}

#[test]
fn while_and_for_loops_run() {
    assert_eq!(
        printed("var i = 0; while (i < 3) { print i; i = i + 1; }"),
        vec!["0".to_string(), "1".to_string(), "2".to_string()]
    );
    assert_eq!(
        printed("for (var i = 0; i < 2; i = i + 1) print i;"),
        vec!["0".to_string(), "1".to_string()]
    );
}

#[test]
fn clock_native_reports_the_host_clock() {
    match run_source_at("print clock();", 42) {
        Outcome::Printed(lines) => assert_eq!(lines, vec!["42".to_string()]),
        Outcome::Failed(_) => panic!("expected success"),
    }
}

#[test]
fn string_contents_round_trip_through_printing() {
    assert_eq!(
        printed("var s = \"hi there\"; print s;"),
        vec!["hi there".to_string()]
    );
}

#[test]
fn scan_error_for_unsupported_character() {
    let r = Scanner::new("var a = @;").scan_tokens();
    assert!(r.is_err());
    assert_eq!(r.err().unwrap().message(), "Unsupported character");
}

#[test]
fn scan_error_for_unterminated_string() {
    let r = Scanner::new("var a = \"oops").scan_tokens();
    assert!(r.is_err());
    assert_eq!(r.err().unwrap().message(), "Unterminated string.");
}

#[test]
fn parse_error_mentions_line_and_lexeme() {
    let tokens = Scanner::new("var = 1;").scan_tokens().unwrap();
    let mut parser = Parser::new(tokens);
    let r = parser.parse();
    assert!(r.is_err());
    let msg = r.err().unwrap().message();
    assert!(msg.contains("Line 1"));
    assert!(msg.contains("Expect variable name."));
}

#[test]
fn environment_chain_define_get_assign() {
    let mut interpreter = Interpreter::new(BufferPrinter::new());
    let root = interpreter.new_globals_ptr();
    let name = "x".to_string();
    interpreter.define_variable(root, &name, Value::Number(1));
    assert_eq!(
        interpreter.get_variable(root, &name).unwrap(),
        Value::Number(1)
    );

    // A child sees the ancestor's binding.
    let child = interpreter.new_ptr(root);
    assert_eq!(
        interpreter.get_variable(child, &name).unwrap(),
        Value::Number(1)
    );

    // Assignment from the child mutates the ancestor's binding, visible
    // through a second chain sharing that ancestor.
    let other = interpreter.new_ptr(root);
    interpreter
        .assign_variable(child, &name, &Value::Number(5))
        .unwrap();
    assert_eq!(
        interpreter.get_variable(other, &name).unwrap(),
        Value::Number(5)
    );

    // Shadowing in the child does not alter the ancestor's binding.
    interpreter.define_variable(child, &name, Value::Number(9));
    assert_eq!(
        interpreter.get_variable(child, &name).unwrap(),
        Value::Number(9)
    );
    assert_eq!(
        interpreter.get_variable(root, &name).unwrap(),
        Value::Number(5)
    );

    // Reading an unbound name is an error.
    let missing = "y".to_string();
    assert!(interpreter.get_variable(root, &missing).is_err());
    assert!(interpreter
        .assign_variable(child, &missing, &Value::Nil)
        .is_err());
}

#[test]
fn pure_expression_evaluates_identically_twice() {
    let mut interpreter = Interpreter::new(BufferPrinter::new());
    let env = interpreter.new_globals_ptr();
    let name = "x".to_string();
    interpreter.define_variable(env, &name, Value::Number(20));
    let tokens = Scanner::new("x + 2 * 11;").scan_tokens().unwrap();
    let mut parser = Parser::new(tokens);
    let statements = parser.parse().unwrap();
    // The expression statement discards the value; evaluate the inner
    // expression directly, twice, against the unmodified environment.
    let rlox::ast::Statement::Expression(stmt) = &statements[0] else {
        panic!("expected an expression statement")
    };
    let first = interpreter
        .evaluate_expr(env, &stmt.expr, rlox::interp::EVAL_BUDGET)
        .unwrap();
    let second = interpreter
        .evaluate_expr(env, &stmt.expr, rlox::interp::EVAL_BUDGET)
        .unwrap();
    assert_eq!(first, Value::Number(42));
    assert_eq!(second, Value::Number(42));
}

#[test]
fn number_rendering_covers_negatives_and_extremes() {
    assert_eq!(printed("print 0;"), vec!["0".to_string()]);
    assert_eq!(printed("print 0 - 12345;"), vec!["-12345".to_string()]);
    assert_eq!(
        printed("print 0 - 9223372036854775807 - 1;"),
        vec!["-9223372036854775808".to_string()]
    );
}

#[test]
fn assignment_overwrites_nearest_binding_in_captured_scope() {
    // Regression for the captured-counter scenario: `c = c + 1` inside the
    // closure must overwrite the `c` binding of the enclosing call frame,
    // never create a fresh binding in the closure's own scope.
    let source = r"
fun counter() {
    var c = 1;
    fun inc() {
        c = c + 1;
        return c;
    }
    return inc;
}
var f = counter();
print f();
print f();
";
    assert_eq!(printed(source), vec!["2".to_string(), "3".to_string()]);
}

#[test]
fn undefined_variable_error_names_the_variable() {
    match failure("print nowhere;") {
        Fault::Script(e) => {
            assert_eq!(e.message(), "Undefined variable 'nowhere'.");
        }
        Fault::Exhausted => panic!("unexpected exhaustion"),
    }
}

#[test]
fn arity_mismatch_messages_distinguish_directions() {
    match failure("fun two(a, b) {} two(1);") {
        Fault::Script(e) => {
            assert!(matches!(
                e,
                ErrorKind::ArityMismatch {
                    expected: 2,
                    given: 1
                }
            ));
            assert_eq!(e.message(), "More args must be given");
        }
        Fault::Exhausted => panic!("unexpected exhaustion"),
    }
    match failure("fun zero() {} zero(7);") {
        Fault::Script(e) => assert_eq!(e.message(), "Less args must be given"),
        Fault::Exhausted => panic!("unexpected exhaustion"),
    }
}

#[test]
fn runaway_recursion_exhausts_the_budget() {
    let source = "fun again() { return again(); } again();";
    let tokens = Scanner::new(source).scan_tokens().unwrap();
    let mut parser = Parser::new(tokens);
    let statements = parser.parse().unwrap();
    let mut interpreter = Interpreter::new(BufferPrinter::new());
    let environment = interpreter.new_globals_ptr();
    let r = interpreter.evaluate_stmts(environment, &statements, 2000);
    assert!(matches!(r, Err(Fault::Exhausted)));
}

#[test]
fn endless_loop_exhausts_the_budget() {
    let source = "while (true) {}";
    let tokens = Scanner::new(source).scan_tokens().unwrap();
    let mut parser = Parser::new(tokens);
    let statements = parser.parse().unwrap();
    let mut interpreter = Interpreter::new(BufferPrinter::new());
    let environment = interpreter.new_globals_ptr();
    let r = interpreter.evaluate_stmts(environment, &statements, 2000);
    assert!(matches!(r, Err(Fault::Exhausted)));
}
