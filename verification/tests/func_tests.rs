//! Callables: native function invocation and value equality.

use rlox::interp::{clock_native, Callable, Interpreter, StdOutPrinter};
use rlox::value::{NativeFunction, NativeKind, Value};

fn hello() -> NativeFunction {
    NativeFunction {
        name: "hello".to_string(),
        arity: 0,
        kind: NativeKind::Nop,
    }
}

#[test]
fn test_call() {
    let printer = StdOutPrinter::new();
    let mut interpreter = Interpreter::new(printer);
    let args: Vec<Value> = Vec::new();
    hello().call(&mut interpreter, &args).unwrap();
}

#[test]
fn test_equal() {
    let f1 = Value::NativeFunction(clock_native());
    let f2 = Value::NativeFunction(clock_native());
    assert_eq!(f1, f2);
}
