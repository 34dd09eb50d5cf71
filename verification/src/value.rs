//! Runtime values: the tagged union the evaluator computes with, its
//! mathematical view, structural equality, and the textual form used by the
//! `print` statement.

use vstd::prelude::*;

use crate::ast::Literal;
use crate::ast::view::LitV;
use vstd::string::StringExecFns;

verus! {

/// What a native function does when called. The registry of natives is
/// closed: each behaviour the core ships is a variant here.
#[derive(Debug, Copy, Clone, PartialEq, Eq, Structural)]
pub enum NativeKind {
    /// Returns the interpreter's current clock reading as a number.
    Clock,
    /// Ignores its arguments and returns `Nil`.
    Nop,
}

/// Descriptor of a native function: its registry name, declared arity and
/// behaviour. Two descriptors are equal when behaviour and arity agree; the
/// name is display-only.
#[derive(Debug, Clone)]
pub struct NativeFunction {
    pub name: String,
    pub arity: usize,
    pub kind: NativeKind,
}

/// View of a native function descriptor.
pub struct NativeFunctionV {
    pub name: Seq<char>,
    pub arity: nat,
    pub kind: NativeKind,
}

/// A shared handle to a user-defined function object. Function objects live
/// in the interpreter's function arena; the handle carries the arena index.
/// Two handles are equal exactly when they refer to the same object, so
/// equality is identity, as required for closures.
#[derive(Debug, Clone, Copy, PartialEq, Eq, Structural)]
pub struct Object {
    pub index: usize,
}

impl Object {
    /// Creates a handle for the function object stored at `index`.
    pub fn new(index: usize) -> (r: Object)
        ensures
            r.index == index,
    {
        Object { index }
    }
}

/// A runtime value.
#[derive(Debug, Clone)]
pub enum Value {
    Number(i64),
    String(String),
    Boolean(bool),
    Nil,
    NativeFunction(NativeFunction),
    FunctionObject(Object),
}

/// View of a runtime value. A function object is abstracted to the index of
/// its record in the interpreter's function arena.
pub enum ValueV {
    Number(i64),
    Str(Seq<char>),
    Boolean(bool),
    Nil,
    Native(NativeFunctionV),
    Fun(int),
}

impl View for NativeFunction {
    type V = NativeFunctionV;

    open spec fn view(&self) -> NativeFunctionV {
        NativeFunctionV { name: self.name@, arity: self.arity as nat, kind: self.kind }
    }
}

impl View for Value {
    type V = ValueV;

    open spec fn view(&self) -> ValueV {
        match self {
            Value::Number(n) => ValueV::Number(*n),
            Value::String(s) => ValueV::Str(s@),
            Value::Boolean(b) => ValueV::Boolean(*b),
            Value::Nil => ValueV::Nil,
            Value::NativeFunction(f) => ValueV::Native(f@),
            Value::FunctionObject(o) => ValueV::Fun(o.index as int),
        }
    }
}

impl DeepView for Value {
    type V = ValueV;

    open spec fn deep_view(&self) -> ValueV {
        self@
    }
}

/// Equality of values as the language defines it: structural for the
/// primitives, by behaviour and arity for natives, by identity for function
/// objects, and `false` across different kinds.
pub open spec fn val_eq(a: ValueV, b: ValueV) -> bool {
    match (a, b) {
        (ValueV::Number(x), ValueV::Number(y)) => x == y,
        (ValueV::Str(x), ValueV::Str(y)) => x == y,
        (ValueV::Boolean(x), ValueV::Boolean(y)) => x == y,
        (ValueV::Nil, ValueV::Nil) => true,
        (ValueV::Native(x), ValueV::Native(y)) => x.arity == y.arity && x.kind == y.kind,
        (ValueV::Fun(x), ValueV::Fun(y)) => x == y,
        _ => false,
    }
}

impl PartialEq for NativeFunction {
    fn eq(&self, other: &Self) -> (r: bool) {
        self.arity == other.arity && self.kind == other.kind
    }
}

impl vstd::std_specs::cmp::PartialEqSpecImpl for NativeFunction {
    open spec fn obeys_eq_spec() -> bool {
        true
    }

    open spec fn eq_spec(&self, other: &Self) -> bool {
        self.arity == other.arity && self.kind == other.kind
    }
}

impl PartialEq for Value {
    fn eq(&self, other: &Self) -> (r: bool) {
        match (self, other) {
            (Value::Number(x), Value::Number(y)) => *x == *y,
            (Value::String(x), Value::String(y)) => *x == *y,
            (Value::Boolean(x), Value::Boolean(y)) => *x == *y,
            (Value::Nil, Value::Nil) => true,
            (Value::NativeFunction(x), Value::NativeFunction(y)) => *x == *y,
            (Value::FunctionObject(x), Value::FunctionObject(y)) => *x == *y,
            _ => false,
        }
    }
}

impl vstd::std_specs::cmp::PartialEqSpecImpl for Value {
    open spec fn obeys_eq_spec() -> bool {
        true
    }

    open spec fn eq_spec(&self, other: &Self) -> bool {
        val_eq(self@, other@)
    }
}

impl Value {
    /// Converts a literal from the syntax tree into the value it denotes.
    pub fn from_literal(lit: &Literal) -> (r: Value)
        ensures
            r@ == lit_value(lit@),
            !(r@ matches ValueV::Fun(_)),
    {
        match lit {
            Literal::Number(n) => Value::Number(*n),
            Literal::String(s) => Value::String(s.clone()),
            Literal::Boolean(b) => Value::Boolean(*b),
            Literal::Nil => Value::Nil,
        }
    }

    /// Truthiness: `Nil` and `false` are falsy, every other value is truthy.
    pub fn is_truthy(&self) -> (r: bool)
        ensures
            r == truthy(self@),
    {
        match self {
            Value::Nil => false,
            Value::Boolean(b) => *b,
            _ => true,
        }
    }
}

/// The value a literal denotes.
pub open spec fn lit_value(l: LitV) -> ValueV {
    match l {
        LitV::Number(n) => ValueV::Number(n),
        LitV::Str(s) => ValueV::Str(s),
        LitV::Boolean(b) => ValueV::Boolean(b),
        LitV::Nil => ValueV::Nil,
    }
}

/// Truthiness of a value.
pub open spec fn truthy(v: ValueV) -> bool {
    match v {
        ValueV::Nil => false,
        ValueV::Boolean(b) => b,
        _ => true,
    }
}

/// The decimal digit character for `d` (0 to 9).
pub open spec fn digit_char(d: int) -> char {
    if d == 0 {
        '0'
    } else if d == 1 {
        '1'
    } else if d == 2 {
        '2'
    } else if d == 3 {
        '3'
    } else if d == 4 {
        '4'
    } else if d == 5 {
        '5'
    } else if d == 6 {
        '6'
    } else if d == 7 {
        '7'
    } else if d == 8 {
        '8'
    } else {
        '9'
    }
}

/// Decimal text of a natural number, most significant digit first.
pub open spec fn dec_seq_nat(n: nat) -> Seq<char>
    decreases n,
{
    if n < 10 {
        seq![digit_char(n as int)]
    } else {
        dec_seq_nat(n / 10).push(digit_char((n % 10) as int))
    }
}

/// Decimal text of a number value, with a leading minus sign if negative.
pub open spec fn dec_seq_i64(n: i64) -> Seq<char> {
    if n < 0 {
        seq!['-'] + dec_seq_nat((-(n as int)) as nat)
    } else {
        dec_seq_nat(n as nat)
    }
}

/// The text a value prints as.
pub open spec fn text_of_value(v: ValueV) -> Seq<char> {
    match v {
        ValueV::Number(n) => dec_seq_i64(n),
        ValueV::Str(s) => s,
        ValueV::Boolean(b) => if b {
            "true"@
        } else {
            "false"@
        },
        ValueV::Nil => "nil"@,
        ValueV::Native(_) => "<native fn>"@,
        ValueV::Fun(_) => "<fn>"@,
    }
}

/// The single-character string for the decimal digit `d`.
fn digit_str(d: u64) -> (r: &'static str)
    requires
        d < 10,
    ensures
        r@ == seq![digit_char(d as int)],
{
    proof {
        reveal_strlit("0");
        reveal_strlit("1");
        reveal_strlit("2");
        reveal_strlit("3");
        reveal_strlit("4");
        reveal_strlit("5");
        reveal_strlit("6");
        reveal_strlit("7");
        reveal_strlit("8");
        reveal_strlit("9");
    }
    let r: &'static str = match d {
        0 => "0",
        1 => "1",
        2 => "2",
        3 => "3",
        4 => "4",
        5 => "5",
        6 => "6",
        7 => "7",
        8 => "8",
        _ => "9",
    };
    proof {
        assert(r@ =~= seq![digit_char(d as int)]);
    }
    r
}

/// Renders a natural number in decimal.
pub fn nat_to_string(n: u64) -> (s: String)
    ensures
        s@ == dec_seq_nat(n as nat),
    decreases n,
{
    if n < 10 {
        let s = String::from_str(digit_str(n));
        s
    } else {
        let mut s = nat_to_string(n / 10);
        s.append(digit_str(n % 10));
        proof {
            assert(s@ =~= dec_seq_nat(n as nat));
        }
        s
    }
}

/// Renders a number value in decimal, with a minus sign if negative.
pub fn int_to_string(n: i64) -> (s: String)
    ensures
        s@ == dec_seq_i64(n),
{
    if n >= 0 {
        nat_to_string(n as u64)
    } else {
        let mag: u64 = (-(n as i128)) as u64;
        let mut s = String::from_str("-");
        let digits = nat_to_string(mag);
        s.append(digits.as_str());
        proof {
            reveal_strlit("-");
            assert(s@ =~= dec_seq_i64(n));
        }
        s
    }
}

impl Value {
    /// The text this value prints as: numbers in decimal, strings as their
    /// contents, `true` / `false` / `nil`, and fixed markers for callables.
    pub fn to_text(&self) -> (s: String)
        ensures
            s@ == text_of_value(self@),
    {
        match self {
            Value::Number(n) => int_to_string(*n),
            Value::String(s) => s.clone(),
            Value::Boolean(b) => {
                if *b {
                    String::from_str("true")
                } else {
                    String::from_str("false")
                }
            },
            Value::Nil => String::from_str("nil"),
            Value::NativeFunction(_) => String::from_str("<native fn>"),
            Value::FunctionObject(_) => String::from_str("<fn>"),
        }
    }
}

} // verus!
