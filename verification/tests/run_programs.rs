//! End-to-end programs: scan, parse and evaluate, observing the printed
//! output through a collecting sink.

use rlox::ast::Statement;
use rlox::interp::{BufferPrinter, Interpreter};
use rlox::parser::Parser;
use rlox::resolver::{Resolver, Scope};
use rlox::scanner::Scanner;

fn print_from(source: &str) -> Result<Vec<String>, String> {
    let tokens = Scanner::new(source).scan_tokens().map_err(|e| e.message())?;
    let mut parser = Parser::new(tokens);
    let statements = parser.parse().map_err(|e| e.message())?;
    let mut interpreter = Interpreter::new(BufferPrinter::new());
    let environment = interpreter.new_globals_ptr();
    match interpreter.evaluate_program(environment, &statements) {
        Ok(_) => {}
        Err(_) => return Err("evaluation failed".to_string()),
    }
    Ok(interpreter.printer.lines)
}

/// Like `print_from`, with the resolver pass in front: the evaluator then
/// walks the annotated lexical distances instead of searching dynamically.
fn print_from_resolved(source: &str) -> Result<Vec<String>, String> {
    let tokens = Scanner::new(source).scan_tokens().map_err(|e| e.message())?;
    let mut parser = Parser::new(tokens);
    let statements = parser.parse().map_err(|e| e.message())?;
    let mut resolver = Resolver;
    let mut scope = Scope::new_ptr(None);
    let mut resolved: Vec<Statement> = Vec::new();
    for s in &statements {
        resolved.push(
            resolver
                .resolve_statement(&mut scope, s)
                .map_err(|e| e.message())?,
        );
    }
    let mut interpreter = Interpreter::new(BufferPrinter::new());
    let environment = interpreter.new_globals_ptr();
    match interpreter.evaluate_program(environment, &resolved) {
        Ok(_) => {}
        Err(_) => return Err("evaluation failed".to_string()),
    }
    Ok(interpreter.printer.lines)
}

#[test]
fn main_test_capturing_using_static_scope() {
    let source = r#"
var a = "global";
{
    fun showA() {
        print a;
    }
    
    showA();
    var a = "block";
    showA();
}
"#;
    // Resolved, the closure reads the `a` visible at its definition site,
    // unaffected by the shadowing declaration that follows.
    assert_eq!(
        vec!["global".to_string(), "global".to_string()],
        print_from_resolved(source).unwrap()
    );
}

#[test]
fn main_test_source() {
    let source = r"
var a = 1;
var b = 2;
{
    var a = 3;
    var b = 4;
    print a + b;
}
        ";

    assert_eq!(vec!["7".to_string()], print_from(source).unwrap());
}

#[test]
fn main_test_closure() {
    let source = r"
fun counter() {
    var c = 0;
    fun inc() {
        c = c + 1;
        return c;
    }
    return inc;
}
var c = counter();
c();
print c();
";
    assert_eq!(vec!["2".to_string()], print_from(source).unwrap());
}

#[test]
fn main_test_recursion() {
    let source = r"
fun sum(x) {
    if (x < 1) {
        return 0;
    }
    return x + sum(x - 1);
}
print sum(4);
";
    assert_eq!(vec!["10".to_string()], print_from(source).unwrap());
}

#[test]
fn source_print_test_test_source() {
    let source = r"
var a = 1;
var b = 2;
{
    var a = 3;
    var b = 4;
    print a + b;
}
        ";

    assert_eq!(vec!["7".to_string()], print_from(source).unwrap());
}

#[test]
fn source_print_test_test_closure() {
    let source = r"
fun counter() {
    var c = 0;
    fun inc() {
        c = c + 1;
        return c;
    }
    return inc;
}
var c = counter();
c();
print c();
";
    assert_eq!(vec!["2".to_string()], print_from(source).unwrap());
}

#[test]
fn source_print_test_test_recursion() {
    let source = r"
fun sum(x) {
    if (x < 1) {
        return 0;
    }
    return x + sum(x - 1);
}
print sum(4);
";
    assert_eq!(vec!["10".to_string()], print_from(source).unwrap());
}

#[test]
fn interpreter_test_source() {
    let source = r"
var a = 1;
var b = 2;
{
    var a = 3;
    var b = 4;
    print a + b;
}
        ";

    assert_eq!(vec!["7".to_string()], print_from(source).unwrap());
}

#[test]
fn interpreter_test_closure() {
    let source = r"
fun counter() {
    var c = 0;
    fun inc() {
        c = c + 1;
        return c;
    }
    return inc;
}
var c = counter();
c();
print c();
";
    assert_eq!(vec!["2".to_string()], print_from(source).unwrap());
}
