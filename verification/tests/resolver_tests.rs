//! The resolver: lexical distances, unchanged trees, and rejection of
//! duplicate declarations.

use rlox::ast::{Expr, Statement};
use rlox::parser::Parser;
use rlox::resolver::{ResolveError, Resolver, Scope};
use rlox::scanner::Scanner;

fn parse(source: &str) -> Result<Vec<Statement>, String> {
    let tokens = Scanner::new(source).scan_tokens().map_err(|e| e.message())?;
    let mut parser = Parser::new(tokens);
    parser.parse().map_err(|e| e.message())
}

fn resolve(stmts: &Vec<Statement>) -> Result<Vec<Statement>, ResolveError> {
    let mut resolver = Resolver;
    let mut scope = Scope::new_ptr(None);
    let mut out: Vec<Statement> = Vec::new();
    for s in stmts {
        out.push(resolver.resolve_statement(&mut scope, s)?);
    }
    Ok(out)
}

fn visit_statement(stmt: &Statement, print_count: &mut usize) {
    match stmt {
        Statement::Expression(_stmt) => {}
        Statement::Print(stmt) => {
            *print_count += 1;
            let Expr::Variable(expr) = &stmt.expr else {
                panic!("print statement has expr other than variable;")
            };
            if expr.name == "a" {
                // Two hops: the function's parameter frame (which doubles
                // as the body's scope) and the enclosing block, to the
                // root that binds `a`.
                assert_eq!(expr.resolution, Some(2));
            } else if expr.name == "b" {
                assert_eq!(expr.resolution, Some(0));
            } else {
                panic!("Weird variable name?")
            }
        }
        Statement::VariableDecl(_stmt) => {}
        Statement::Block(stmt) => {
            for stmt in &stmt.statements {
                visit_statement(stmt, print_count);
            }
        }
        Statement::If(stmt) => {
            visit_statement(&stmt.then_branch, print_count);
            if let Some(else_branch) = &stmt.else_branch {
                visit_statement(else_branch, print_count);
            }
        }
        Statement::While(stmt) => {
            visit_statement(&stmt.body, print_count);
        }
        Statement::Function(stmt) => {
            visit_statement(&stmt.body, print_count);
        }
        Statement::Return(_stmt) => {}
    }
}

#[test]
fn test_static_scope() {
    let source = r#"
var a = "global";
{
    fun showA() {
        print a;
    }
    var a = "block";
    var b = "block";
    print b;
}
        "#;

    let stmts = parse(source).unwrap();
    let resolved = resolve(&stmts).unwrap();

    let mut print_count = 0;
    for s in &resolved {
        visit_statement(s, &mut print_count);
    }
    assert_eq!(print_count, 2);
}

#[test]
fn test_variable_resolution_error() {
    let stmts = parse("print a;").unwrap();
    let result = resolve(&stmts);
    assert!(matches!(result, Err(ResolveError::UndefinedVariable(_))));
}

#[test]
fn test_trivial_call_resolution() {
    let source = r#"
fun noop() {}
noop();
        "#;

    let stmts = parse(source).unwrap();
    let resolved = resolve(&stmts).unwrap();
    // A call at the top level resolves its callee in the scope it stands
    // in: distance 0. Everything else is unchanged but the annotation.
    let Statement::Expression(call_stmt) = &resolved[1] else {
        panic!("expected an expression statement")
    };
    let Expr::Call(call) = &call_stmt.expr else {
        panic!("expected a call")
    };
    let Expr::Variable(callee) = &call.callee else {
        panic!("expected a variable callee")
    };
    assert_eq!(callee.name, "noop");
    assert_eq!(callee.resolution, Some(0));
    assert!(call.arguments.is_empty());
}

#[test]
fn test_nested_call_resolution() {
    let source = r#"
fun noop() {}
{ noop(); }
        "#;

    let stmts = parse(source).unwrap();
    let before = format!("{:?}", stmts);
    let resolved = resolve(&stmts).unwrap();
    let after = format!("{:?}", resolved);
    assert_ne!(before, after);
}

#[test]
fn test_no_two_variables_with_same_name_cannot_exist() {
    let source = r#"
var a = 1;
var a = 2;
        "#;

    let stmts = parse(source).unwrap();
    let result = resolve(&stmts);
    assert!(result.is_err());
    assert!(result.err().unwrap().message().contains("Already"));
}
