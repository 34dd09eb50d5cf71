//! The interpreter: arena of environment frames, arena of function objects,
//! the output sink, and the recursive evaluator.
//!
//! Every public operation's contract says exactly how it transforms the
//! interpreter's abstract state ([`crate::semantics::StateV`]) — the
//! evaluator itself is specified as equal to the definitional evaluator of
//! [`crate::semantics`].

use std::io::Write;

use vstd::prelude::*;
use vstd::string::StringExecFns;

use crate::ast::view::StmtV;
use crate::ast::{stmt_view, Expr, Ptr, Statement};
use crate::env::Environment;
use crate::semantics::{
    assign_at, assign_chain, call_fun_s, define_in, eval_call_s, eval_expr_s, eval_exprs_s,
    eval_stmt_s, eval_stmts_s, eval_while_s, lookup_at, lookup_chain, push_env, EResV, ErrorKindV,
    EsResV, ExprOut, ExprsOut, FaultV, FlowV, FrameV, FunV, SResV, StateV, StmtOut, wf_state,
    wf_value,
};
use crate::token::TokenKind;
use crate::value::{NativeFunction, NativeFunctionV, NativeKind, Value, ValueV};

verus! {

/// A script-level error, by kind, with what the message needs.
#[derive(Debug, Clone)]
pub enum ErrorKind {
    UndefinedVariable(String),
    UnsupportedOperator,
    DivisionByZero,
    ArityMismatch { expected: usize, given: usize },
    NotCallable,
}

impl View for ErrorKind {
    type V = ErrorKindV;

    open spec fn view(&self) -> ErrorKindV {
        match self {
            ErrorKind::UndefinedVariable(n) => ErrorKindV::UndefinedVariable(n@),
            ErrorKind::UnsupportedOperator => ErrorKindV::UnsupportedOperator,
            ErrorKind::DivisionByZero => ErrorKindV::DivisionByZero,
            ErrorKind::ArityMismatch { expected, given } => ErrorKindV::ArityMismatch {
                expected: *expected as nat,
                given: *given as nat,
            },
            ErrorKind::NotCallable => ErrorKindV::NotCallable,
        }
    }
}

impl ErrorKind {
    /// A human-readable description of the error; an arity mismatch says
    /// whether too few or too many arguments were given.
    pub fn message(&self) -> (s: String)
        ensures
            s@ == (match self {
                ErrorKind::UndefinedVariable(n) => "Undefined variable '"@ + n@ + "'."@,
                ErrorKind::UnsupportedOperator => "Unsupported operator for these operand types."@,
                ErrorKind::DivisionByZero => "Divided by zero"@,
                ErrorKind::ArityMismatch { expected, given } => if *given < *expected {
                    "More args must be given"@
                } else {
                    "Less args must be given"@
                },
                ErrorKind::NotCallable => "Only function types can be called."@,
            }),
    {
        match self {
            ErrorKind::UndefinedVariable(n) => {
                let mut s = String::from_str("Undefined variable '");
                s.append(n.as_str());
                s.append("'.");
                proof {
                    assert(s@ =~= "Undefined variable '"@ + n@ + "'."@);
                }
                s
            },
            ErrorKind::UnsupportedOperator => String::from_str(
                "Unsupported operator for these operand types.",
            ),
            ErrorKind::DivisionByZero => String::from_str("Divided by zero"),
            ErrorKind::ArityMismatch { expected, given } => {
                if *given < *expected {
                    String::from_str("More args must be given")
                } else {
                    String::from_str("Less args must be given")
                }
            },
            ErrorKind::NotCallable => String::from_str("Only function types can be called."),
        }
    }
}

/// A failure that aborts evaluation: a script-level error, or exhaustion of
/// the evaluation budget (the bounded analogue of the host stack), which is
/// fatal and intercepted nowhere.
#[derive(Debug, Clone)]
pub enum Fault {
    Script(ErrorKind),
    Exhausted,
}

impl View for Fault {
    type V = FaultV;

    open spec fn view(&self) -> FaultV {
        match self {
            Fault::Script(e) => FaultV::Script(e@),
            Fault::Exhausted => FaultV::Exhausted,
        }
    }
}

/// How a statement finished: normal completion, or a pending `return`
/// carrying a value. A pending `return` unwinds outward until the nearest
/// call boundary converts it into the call's result; it is not an error and
/// no error handler sees it.
#[derive(Debug)]
pub enum Flow {
    Completed,
    ReturnedWith(Value),
}

impl View for Flow {
    type V = FlowV;

    open spec fn view(&self) -> FlowV {
        match self {
            Flow::Completed => FlowV::Completed,
            Flow::ReturnedWith(v) => FlowV::ReturnedWith(v@),
        }
    }
}

/// The output sink for the `print` statement. The host supplies one; its
/// abstract content is the sequence of lines printed so far.
pub trait Printer: Sized {
    /// The lines forwarded to this sink so far.
    spec fn messages(&self) -> Seq<Seq<char>>;

    /// Forwards one line to the sink.
    fn print(&mut self, message: &str)
        ensures
            final(self).messages() == old(self).messages().push(message@),
    ;
}

/// A sink that writes each line to standard output.
pub struct StdOutPrinter {
    /// Abstract record of what has been written.
    pub log: Ghost<Seq<Seq<char>>>,
}

impl StdOutPrinter {
    /// Creates a sink for standard output with an empty record.
    pub fn new() -> (r: StdOutPrinter)
        ensures
            r.messages() == Seq::<Seq<char>>::empty(),
    {
        StdOutPrinter { log: Ghost(Seq::empty()) }
    }
}

/// Relies on `std::io::stdout` and the `writeln` macro: writes one line to
/// standard output.
#[verifier::external_body]
fn write_stdout_line(message: &str) {
    let _ = writeln!(std::io::stdout(), "{}", message);
}

impl Printer for StdOutPrinter {
    open spec fn messages(&self) -> Seq<Seq<char>> {
        self.log@
    }

    fn print(&mut self, message: &str) {
        write_stdout_line(message);
        proof {
            self.log@ = self.log@.push(message@);
        }
    }
}

/// A sink that collects each line into a vector, for hosts and tests that
/// inspect the output.
pub struct BufferPrinter {
    pub lines: Vec<String>,
}

impl BufferPrinter {
    /// Creates an empty collecting sink.
    pub fn new() -> (r: BufferPrinter)
        ensures
            r.messages() == Seq::<Seq<char>>::empty(),
    {
        BufferPrinter { lines: Vec::new() }
    }
}

impl Printer for BufferPrinter {
    open spec fn messages(&self) -> Seq<Seq<char>> {
        self.lines.deep_view()
    }

    fn print(&mut self, message: &str) {
        let ghost before = self.lines.deep_view();
        self.lines.push(message.to_owned());
        proof {
            assert(self.lines.deep_view() =~= before.push(message@));
        }
    }
}

/// A user-defined function object: immutable once created. `closure` is the
/// frame that was current at its declaration; calls create children of that
/// frame, which is what makes lexical scoping and closures work.
#[derive(Debug)]
pub struct FunctionObject {
    pub name: String,
    pub parameters: Vec<String>,
    pub body: Ptr<Statement>,
    pub closure: usize,
}

impl View for FunctionObject {
    type V = FunV;

    open spec fn view(&self) -> FunV {
        FunV {
            name: self.name@,
            params: self.parameters.deep_view(),
            body: stmt_view(&self.body),
            closure: self.closure as int,
        }
    }
}

impl DeepView for FunctionObject {
    type V = FunV;

    open spec fn deep_view(&self) -> FunV {
        self@
    }
}

impl DeepView for Environment {
    type V = FrameV;

    open spec fn deep_view(&self) -> FrameV {
        self@
    }
}

/// View of the clock native's descriptor.
pub open spec fn clock_native_v() -> NativeFunctionV {
    NativeFunctionV { name: "clock"@, arity: 2nat, kind: NativeKind::Clock }
}

/// The descriptor of the `clock` native function.
pub fn clock_native() -> (f: NativeFunction)
    ensures
        f@ == clock_native_v(),
{
    NativeFunction { name: String::from_str("clock"), arity: 2, kind: NativeKind::Clock }
}

/// The frame a fresh root environment starts with: every native function
/// under its registry name, and no parent.
pub open spec fn globals_frame() -> FrameV {
    FrameV {
        parent: None,
        vars: Map::<Seq<char>, ValueV>::empty().insert(
            "clock"@,
            ValueV::Native(clock_native_v()),
        ),
    }
}

/// Copies a value; the copy has the same view.
pub fn dup_value(v: &Value) -> (r: Value)
    ensures
        r@ == v@,
{
    match v {
        Value::Number(n) => Value::Number(*n),
        Value::String(s) => Value::String(s.clone()),
        Value::Boolean(b) => Value::Boolean(*b),
        Value::Nil => Value::Nil,
        Value::NativeFunction(f) => Value::NativeFunction(
            NativeFunction { name: f.name.clone(), arity: f.arity, kind: f.kind },
        ),
        Value::FunctionObject(o) => Value::FunctionObject(*o),
    }
}

/// The interpreter. It owns every environment frame and function object
/// ever created in this run (frames are kept alive because closures may
/// reach them at any later time), the host's output sink, and the clock
/// reading the host supplied for the `clock` native.
pub struct Interpreter<P: Printer> {
    pub envs: Vec<Environment>,
    pub funs: Vec<FunctionObject>,
    pub clock_time: i64,
    pub printer: P,
}

impl<P: Printer> View for Interpreter<P> {
    type V = StateV;

    open spec fn view(&self) -> StateV {
        StateV {
            envs: self.envs.deep_view(),
            funs: self.funs.deep_view(),
            output: self.printer.messages(),
            clock: self.clock_time,
        }
    }
}

impl<P: Printer> Interpreter<P> {
    /// All structural invariants: the abstract state is well formed and
    /// every frame's columns are consistent.
    pub open spec fn wf(&self) -> bool {
        &&& wf_state(self@)
        &&& (forall|i: int| 0 <= i < self.envs.len() ==> #[trigger] self.envs@[i].inv())
    }

    /// Number of environment frames, for callers that track frame handles.
    pub open spec fn env_count(&self) -> nat {
        self@.envs.len()
    }

    /// Creates an interpreter with no frames and no functions, owning the
    /// given output sink and a clock reading of 0.
    pub fn new(printer: P) -> (r: Self)
        ensures
            r.wf(),
            r@ == (StateV {
                envs: Seq::empty(),
                funs: Seq::empty(),
                output: printer.messages(),
                clock: 0i64,
            }),
    {
        let r = Interpreter { envs: Vec::new(), funs: Vec::new(), clock_time: 0, printer };
        proof {
            assert(r@.envs =~= Seq::<FrameV>::empty());
            assert(r@.funs =~= Seq::<FunV>::empty());
        }
        r
    }

    /// Sets the clock reading that the `clock` native returns.
    pub fn set_clock(&mut self, now: i64)
        requires
            old(self).wf(),
        ensures
            final(self).wf(),
            final(self)@ == (StateV { clock: now, ..old(self)@ }),
    {
        self.clock_time = now;
        proof {
            lemma_wf_same_shape(old(self)@, self@);
        }
    }

    /// Creates a new, empty environment frame whose parent is `parent`, and
    /// returns its handle.
    pub fn new_ptr(&mut self, parent: usize) -> (e: usize)
        requires
            old(self).wf(),
            parent < old(self).env_count(),
        ensures
            final(self).wf(),
            e == old(self)@.envs.len(),
            final(self)@ == push_env(old(self)@, parent as int),
    {
        let e = self.envs.len();
        let ghost before = self@;
        self.envs.push(Environment::empty(Some(parent)));
        proof {
            assert(self@.envs =~= push_env(before, parent as int).envs);
            assert(self@ =~= push_env(before, parent as int));
            lemma_wf_push_env(before, parent as int);
        }
        e
    }

    /// Creates a new root environment frame, pre-populated with every
    /// native function under its registry name, and returns its handle.
    pub fn new_globals_ptr(&mut self) -> (e: usize)
        requires
            old(self).wf(),
        ensures
            final(self).wf(),
            e == old(self)@.envs.len(),
            final(self)@ == (StateV { envs: old(self)@.envs.push(globals_frame()), ..old(self)@ }),
    {
        let e = self.envs.len();
        let ghost before = self@;
        let mut frame = Environment::empty(None);
        let name = String::from_str("clock");
        frame.define_local(&name, Value::NativeFunction(clock_native()));
        self.envs.push(frame);
        proof {
            assert(self@.envs =~= before.envs.push(globals_frame()));
            assert(self@ =~= (StateV { envs: before.envs.push(globals_frame()), ..before }));
            lemma_wf_push_frame(before, globals_frame());
        }
        e
    }

    /// Resolves `name` through the chain starting at frame `env`: the value
    /// of the nearest binding, or `UndefinedVariable` when no frame in the
    /// chain binds the name.
    pub fn get_variable(&self, env: usize, name: &String) -> (r: Result<Value, ErrorKind>)
        requires
            self.wf(),
            env < self.env_count(),
        ensures
            match r {
                Ok(v) => lookup_chain(self@, env as int, name@) == Some(v@) && wf_value(self@, v@),
                Err(e) => lookup_chain(self@, env as int, name@) is None && e@
                    == ErrorKindV::UndefinedVariable(name@),
            },
    {
        let mut cur = env;
        loop
            invariant
                self.wf(),
                cur < self.envs.len(),
                lookup_chain(self@, env as int, name@) == lookup_chain(self@, cur as int, name@),
            decreases cur,
        {
            proof {
                assert(wf_state(self@));
                assert(crate::semantics::wf_frame(self@, cur as int));
            }
            match self.envs[cur].get_local(name) {
                Some(v) => {
                    let out = dup_value(v);
                    proof {
                        assert(crate::semantics::wf_frame(self@, cur as int));
                        assert(self@.envs[cur as int].vars.contains_key(name@));
                    }
                    return Ok(out);
                },
                None => {
                    match self.envs[cur].parent {
                        Some(p) => {
                            cur = p;
                        },
                        None => {
                            return Err(ErrorKind::UndefinedVariable(name.clone()));
                        },
                    }
                },
            }
        }
    }

    /// Inserts or overwrites the binding of `name` in frame `env` alone;
    /// never fails.
    pub fn define_variable(&mut self, env: usize, name: &String, value: Value)
        requires
            old(self).wf(),
            env < old(self).env_count(),
            wf_value(old(self)@, value@),
        ensures
            final(self).wf(),
            final(self)@ == define_in(old(self)@, env as int, name@, value@),
    {
        let ghost before = self@;
        let frame = &mut self.envs[env];
        frame.define_local(name, value);
        proof {
            assert(self@.envs =~= define_in(before, env as int, name@, value@).envs);
            assert(self@ =~= define_in(before, env as int, name@, value@));
            lemma_wf_define_in(before, env as int, name@, value@);
        }
    }

    /// Overwrites the binding of `name` in the nearest frame of the chain
    /// starting at `env` that already binds it; fails with
    /// `UndefinedVariable`, changing nothing, when no frame in the chain
    /// binds the name. Never creates a binding.
    pub fn assign_variable(&mut self, env: usize, name: &String, value: &Value) -> (r: Result<
        (),
        ErrorKind,
    >)
        requires
            old(self).wf(),
            env < old(self).env_count(),
            wf_value(old(self)@, value@),
        ensures
            final(self).wf(),
            match r {
                Ok(_) => assign_chain(old(self)@, env as int, name@, value@) == Some(final(self)@),
                Err(e) => {
                    &&& assign_chain(old(self)@, env as int, name@, value@) is None
                    &&& final(self)@ == old(self)@
                    &&& e@ == ErrorKindV::UndefinedVariable(name@)
                },
            },
    {
        let mut cur = env;
        loop
            invariant
                self.wf(),
                self@ == old(self)@,
                cur < self.envs.len(),
                wf_value(self@, value@),
                assign_chain(self@, env as int, name@, value@) == assign_chain(
                    self@,
                    cur as int,
                    name@,
                    value@,
                ),
            decreases cur,
        {
            proof {
                assert(crate::semantics::wf_frame(self@, cur as int));
            }
            if self.envs[cur].binds(name) {
                let ghost before = self@;
                let v = dup_value(value);
                let frame = &mut self.envs[cur];
                frame.define_local(name, v);
                proof {
                    assert(self@.envs =~= define_in(before, cur as int, name@, value@).envs);
                    assert(self@ =~= define_in(before, cur as int, name@, value@));
                    lemma_wf_define_in(before, cur as int, name@, value@);
                }
                return Ok(());
            }
            match self.envs[cur].parent {
                Some(p) => {
                    cur = p;
                },
                None => {
                    return Err(ErrorKind::UndefinedVariable(name.clone()));
                },
            }
        }
    }
}

/// The evaluation budget the convenience entry points use: the bounded
/// analogue of the host stack. Scripts that exceed it fail with the fatal
/// exhaustion fault.
pub const EVAL_BUDGET: u64 = 1000000;

/// The outcome view of an expression evaluation result.
pub open spec fn eres_of(r: Result<Value, Fault>) -> EResV {
    match r {
        Ok(v) => EResV::Val(v@),
        Err(f) => EResV::Flt(f@),
    }
}

/// The outcome view of a statement execution result.
pub open spec fn sres_of(r: Result<Flow, Fault>) -> SResV {
    match r {
        Ok(Flow::Completed) => SResV::Done,
        Ok(Flow::ReturnedWith(v)) => SResV::Ret(v@),
        Err(f) => SResV::Flt(f@),
    }
}

/// Evaluation only ever adds frames and function records; it never removes
/// any (closures may reach old frames at any later time).
pub open spec fn evolves(a: StateV, b: StateV) -> bool {
    &&& a.envs.len() <= b.envs.len()
    &&& a.funs.len() <= b.funs.len()
}

/// States with the same frames and functions are equally well formed.
pub proof fn lemma_wf_same_shape(a: StateV, b: StateV)
    requires
        wf_state(a),
        b.envs == a.envs,
        b.funs == a.funs,
    ensures
        wf_state(b),
{
    assert forall|i: int| 0 <= i < b.envs.len() implies #[trigger] crate::semantics::wf_frame(
        b,
        i,
    ) by {
        assert(crate::semantics::wf_frame(a, i));
    }
    assert forall|j: int| 0 <= j < b.funs.len() implies #[trigger] crate::semantics::wf_fun(
        b,
        j,
    ) by {
        assert(crate::semantics::wf_fun(a, j));
    }
}

/// Prepends already-evaluated values to the outcome of evaluating the
/// remaining expressions.
pub open spec fn exprs_cont(front: Seq<ValueV>, rest: ExprsOut) -> ExprsOut {
    match rest.res {
        EsResV::Vals(vs) => ExprsOut { st: rest.st, res: EsResV::Vals(front + vs) },
        EsResV::Flt(_) => rest,
    }
}

/// Applies a unary operator to an evaluated operand.
fn apply_unary(op: TokenKind, rv: Value) -> (r: Result<Value, Fault>)
    ensures
        eres_of(r) == crate::semantics::eval_unop(op, rv@),
        r matches Ok(v) ==> !(v@ matches ValueV::Fun(_)),
{
    if op == TokenKind::Minus && (matches!(rv, Value::Number(_))) {
        match rv {
            Value::Number(n) => Ok(Value::Number(0i64.wrapping_sub(n))),
            _ => Err(Fault::Script(ErrorKind::UnsupportedOperator)),
        }
    } else if op == TokenKind::Bang {
        Ok(Value::Boolean(!rv.is_truthy()))
    } else {
        Err(Fault::Script(ErrorKind::UnsupportedOperator))
    }
}

/// Applies a binary operator to evaluated operands.
fn apply_binary(op: TokenKind, lv: Value, rv: Value) -> (r: Result<Value, Fault>)
    ensures
        eres_of(r) == crate::semantics::eval_binop(op, lv@, rv@),
        r matches Ok(v) ==> !(v@ matches ValueV::Fun(_)),
{
    match (lv, op, rv) {
        (Value::Number(x), TokenKind::Plus, Value::Number(y)) => Ok(
            Value::Number(x.wrapping_add(y)),
        ),
        (Value::String(x), TokenKind::Plus, Value::String(y)) => {
            let mut s = x;
            s.append(y.as_str());
            Ok(Value::String(s))
        },
        (Value::Number(x), TokenKind::Minus, Value::Number(y)) => Ok(
            Value::Number(x.wrapping_sub(y)),
        ),
        (Value::Number(x), TokenKind::Star, Value::Number(y)) => Ok(
            Value::Number(x.wrapping_mul(y)),
        ),
        (Value::Number(x), TokenKind::Slash, Value::Number(y)) => {
            if y == 0 {
                Err(Fault::Script(ErrorKind::DivisionByZero))
            } else {
                match x.checked_div(y) {
                    Some(q) => Ok(Value::Number(q)),
                    None => Ok(Value::Number(i64::MIN)),
                }
            }
        },
        (Value::Number(x), TokenKind::Greater, Value::Number(y)) => Ok(Value::Boolean(x > y)),
        (Value::Number(x), TokenKind::GreaterEqual, Value::Number(y)) => Ok(
            Value::Boolean(x >= y),
        ),
        (Value::Number(x), TokenKind::Less, Value::Number(y)) => Ok(Value::Boolean(x < y)),
        (Value::Number(x), TokenKind::LessEqual, Value::Number(y)) => Ok(Value::Boolean(x <= y)),
        (x, TokenKind::EqualEqual, y) => Ok(Value::Boolean(x == y)),
        (x, TokenKind::BangEqual, y) => Ok(Value::Boolean(!(x == y))),
        _ => Err(Fault::Script(ErrorKind::UnsupportedOperator)),
    }
}

impl<P: Printer> Interpreter<P> {
    /// Evaluates one expression in frame `env`, exactly as the definitional
    /// evaluator does: same resulting state, same value or failure.
    #[verifier::rlimit(100)]
    #[verifier::loop_isolation(false)]
    pub fn evaluate_expr(&mut self, env: usize, expr: &Expr, fuel: u64) -> (r: Result<Value, Fault>)
        requires
            old(self).wf(),
            env < old(self).env_count(),
        ensures
            final(self).wf(),
            evolves(old(self)@, final(self)@),
            eval_expr_s(old(self)@, env as int, expr@, fuel as nat) == (ExprOut {
                st: final(self)@,
                res: eres_of(r),
            }),
            r matches Ok(v) ==> wf_value(final(self)@, v@),
        decreases fuel, 3int, 0int,
    {
        if fuel == 0 {
            return Err(Fault::Exhausted);
        }
        let f1 = fuel - 1;
        match expr {
            Expr::Literal(l) => Ok(Value::from_literal(&l.literal)),
            Expr::Grouping(g) => self.evaluate_expr(env, &g.expr, f1),
            Expr::Variable(v) => {
                let looked = match v.resolution {
                    Some(d) => self.get_variable_at(env, d, &v.name),
                    None => self.get_variable(env, &v.name),
                };
                match looked {
                    Ok(val) => Ok(val),
                    Err(e) => Err(Fault::Script(e)),
                }
            },
            Expr::Assign(a) => {
                let value = match self.evaluate_expr(env, &a.value, f1) {
                    Ok(v) => v,
                    Err(f) => {
                        return Err(f);
                    },
                };
                let ghost mid = self@;
                let res = match a.resolution {
                    Some(d) => {
                        proof {
                            crate::semantics::lemma_assign_at_shape(
                                mid,
                                env as int,
                                d as nat,
                                a.name@,
                                value@,
                            );
                        }
                        self.assign_variable_at(env, d, &a.name, &value)
                    },
                    None => {
                        proof {
                            crate::semantics::lemma_assign_chain_shape(
                                mid,
                                env as int,
                                a.name@,
                                value@,
                            );
                        }
                        self.assign_variable(env, &a.name, &value)
                    },
                };
                match res {
                    Ok(_) => Ok(value),
                    Err(e) => Err(Fault::Script(e)),
                }
            },
            Expr::Unary(u) => {
                let rv = match self.evaluate_expr(env, &u.right, f1) {
                    Ok(v) => v,
                    Err(f) => {
                        return Err(f);
                    },
                };
                apply_unary(u.operator, rv)
            },
            Expr::Binary(b) => {
                let lv = match self.evaluate_expr(env, &b.left, f1) {
                    Ok(v) => v,
                    Err(f) => {
                        return Err(f);
                    },
                };
                let rv = match self.evaluate_expr(env, &b.right, f1) {
                    Ok(v) => v,
                    Err(f) => {
                        return Err(f);
                    },
                };
                apply_binary(b.operator, lv, rv)
            },
            Expr::Logical(l) => {
                let lv = match self.evaluate_expr(env, &l.left, f1) {
                    Ok(v) => v,
                    Err(f) => {
                        return Err(f);
                    },
                };
                if l.operator == TokenKind::Or && lv.is_truthy() {
                    Ok(lv)
                } else if l.operator == TokenKind::And && !lv.is_truthy() {
                    Ok(lv)
                } else {
                    self.evaluate_expr(env, &l.right, f1)
                }
            },
            Expr::Call(c) => {
                let callee = match self.evaluate_expr(env, &c.callee, f1) {
                    Ok(v) => v,
                    Err(f) => {
                        return Err(f);
                    },
                };
                let ghost st_callee = self@;
                let ghost es = crate::ast::exprs_view(c.arguments@);
                proof {
                    crate::ast::lemma_exprs_view_index(c.arguments@);
                    assert(es.skip(0int) =~= es);
                    let x = eval_exprs_s(st_callee, env as int, es, fuel as nat);
                    match x.res {
                        EsResV::Vals(vs) => {
                            assert(Seq::<ValueV>::empty() + vs =~= vs);
                        },
                        EsResV::Flt(_) => {},
                    }
                }
                let mut arg_values: Vec<Value> = Vec::new();
                proof {
                    assert(arg_values.deep_view() =~= Seq::<ValueV>::empty());
                }
                let n = c.arguments.len();
                let mut i: usize = 0;
                loop
                    invariant
                        self.wf(),
                        env < self.envs.len(),
                        i <= n,
                        n == c.arguments.len(),
                        fuel >= 1,
                        f1 == fuel - 1,
                        es.len() == n,
                        forall|j: int| 0 <= j < n ==> es[j] == crate::ast::expr_view(
                            &c.arguments@[j],
                        ),
                        arg_values.len() == i,
                        evolves(old(self)@, self@),
                        wf_value(self@, callee@),
                        forall|j: int|
                            0 <= j < i ==> wf_value(self@, #[trigger] arg_values.deep_view()[j]),
                        eval_exprs_s(st_callee, env as int, es, fuel as nat) == exprs_cont(
                            arg_values.deep_view(),
                            eval_exprs_s(self@, env as int, es.skip(i as int), fuel as nat),
                        ),
                    decreases n - i,
                {
                    if i >= n {
                        break;
                    }
                    let ghost pre = self@;
                    let ghost acc = arg_values.deep_view();
                    let av = match self.evaluate_expr(env, &c.arguments[i], f1) {
                        Ok(v) => v,
                        Err(f) => {
                            proof {
                                assert(es.skip(i as int)[0] == es[i as int]);
                                assert(eval_exprs_s(pre, env as int, es.skip(i as int), fuel as nat)
                                    == (ExprsOut { st: self@, res: EsResV::Flt(f@) }));
                            }
                            return Err(f);
                        },
                    };
                    proof {
                        assert(es.skip(i as int)[0] == es[i as int]);
                        assert(es.skip(i as int).drop_first() =~= es.skip(i as int + 1));
                        let rest_after = eval_exprs_s(
                            self@,
                            env as int,
                            es.skip(i as int + 1),
                            fuel as nat,
                        );
                        assert(eval_exprs_s(pre, env as int, es.skip(i as int), fuel as nat)
                            == exprs_cont(seq![av@], rest_after));
                        match rest_after.res {
                            EsResV::Vals(vs) => {
                                assert(acc + (seq![av@] + vs) =~= acc.push(av@) + vs);
                            },
                            EsResV::Flt(_) => {},
                        }
                    }
                    arg_values.push(av);
                    proof {
                        assert(arg_values.deep_view() =~= acc.push(av@));
                    }
                    i += 1;
                }
                proof {
                    assert(es.skip(n as int) =~= Seq::<crate::ast::view::ExprV>::empty());
                    assert(arg_values.deep_view() + Seq::<ValueV>::empty() =~= arg_values.deep_view());
                    assert(eval_exprs_s(st_callee, env as int, es, fuel as nat) == (ExprsOut {
                        st: self@,
                        res: EsResV::Vals(arg_values.deep_view()),
                    }));
                }
                self.call_value(&callee, &arg_values, fuel)
            },
        }
    }

    /// Calls a value with already-evaluated arguments. A native computes
    /// its result from the state; a function object checks arity, binds the
    /// parameters in a fresh child frame of its captured closure frame,
    /// runs its body there, and yields the value of a `return` escaping the
    /// body, `Nil` otherwise; any other value fails with `NotCallable`.
    /// The `return` signal is intercepted exactly here, at the call
    /// boundary; failures pass through unchanged.
    #[verifier::rlimit(100)]
    #[verifier::loop_isolation(false)]
    pub fn call_value(&mut self, callee: &Value, args: &Vec<Value>, fuel: u64) -> (r: Result<
        Value,
        Fault,
    >)
        requires
            old(self).wf(),
            wf_value(old(self)@, callee@),
            forall|j: int| 0 <= j < args.len() ==> wf_value(old(self)@, #[trigger] args.deep_view()[j]),
        ensures
            final(self).wf(),
            evolves(old(self)@, final(self)@),
            eval_call_s(old(self)@, callee@, args.deep_view(), fuel as nat) == (ExprOut {
                st: final(self)@,
                res: eres_of(r),
            }),
            r matches Ok(v) ==> wf_value(final(self)@, v@),
        decreases fuel, 2int, 0int,
    {
        if fuel == 0 {
            return Err(Fault::Exhausted);
        }
        match callee {
            Value::NativeFunction(f) => {
                match f.kind {
                    NativeKind::Clock => Ok(Value::Number(self.clock_time)),
                    NativeKind::Nop => Ok(Value::Nil),
                }
            },
            Value::FunctionObject(o) => {
                let id = o.index;
                let nparams = self.funs[id].parameters.len();
                if args.len() != nparams {
                    return Err(
                        Fault::Script(
                            ErrorKind::ArityMismatch { expected: nparams, given: args.len() },
                        ),
                    );
                }
                proof {
                    assert(crate::semantics::wf_fun(self@, id as int));
                }
                let closure = self.funs[id].closure;
                let params = crate::ast::clone_names(&self.funs[id].parameters);
                let body = crate::ast::clone_stmt(&self.funs[id].body);
                let ghost st0 = self@;
                let new_env = self.new_ptr(closure);
                let ghost st1 = self@;
                let ghost pv = st0.funs[id as int].params;
                let ghost av = args.deep_view();
                proof {
                    assert(pv.skip(0int) =~= pv);
                    assert(av.skip(0int) =~= av);
                    assert(pv == params.deep_view());
                    assert forall|k: int| 0 <= k < av.len() implies wf_value(
                        self@,
                        #[trigger] av[k],
                    ) by {
                        assert(wf_value(old(self)@, av[k]));
                    }
                }
                let np = params.len();
                let mut j: usize = 0;
                loop
                    invariant
                        self.wf(),
                        new_env < self.envs.len(),
                        j <= np,
                        np == params.len(),
                        np == args.len(),
                        params.deep_view() == pv,
                        av == args.deep_view(),
                        av.len() == np,
                        evolves(old(self)@, self@),
                        self@.funs == st1.funs,
                        forall|k: int| 0 <= k < np ==> wf_value(self@, #[trigger] av[k]),
                        crate::semantics::bind_params(st1, new_env as int, pv, av)
                            == crate::semantics::bind_params(
                            self@,
                            new_env as int,
                            pv.skip(j as int),
                            av.skip(j as int),
                        ),
                    decreases np - j,
                {
                    if j >= np {
                        break;
                    }
                    proof {
                        assert(pv.skip(j as int)[0] == pv[j as int]);
                        assert(av.skip(j as int)[0] == av[j as int]);
                        assert(pv.skip(j as int).drop_first() =~= pv.skip(j as int + 1));
                        assert(av.skip(j as int).drop_first() =~= av.skip(j as int + 1));
                        assert(pv[j as int] == params.deep_view()[j as int]);
                    }
                    let val = dup_value(&args[j]);
                    let ghost mid = self@;
                    self.define_variable(new_env, &params[j], val);
                    proof {
                        assert(self@ == define_in(mid, new_env as int, pv[j as int], av[j as int]));
                        assert(self@.envs.len() == mid.envs.len());
                        assert(new_env < self.envs.len());
                    }
                    j += 1;
                }
                proof {
                    assert(pv.skip(np as int) =~= Seq::<Seq<char>>::empty());
                    assert(av.skip(np as int) =~= Seq::<ValueV>::empty());
                    assert(crate::semantics::bind_params(st1, new_env as int, pv, av) == self@);
                }
                let outcome: Result<Flow, Fault> = match &body {
                    Statement::Block(b) => self.evaluate_stmts(new_env, &b.statements, fuel),
                    _ => {
                        proof {
                            assert(seq![stmt_view(&body)].drop_first() =~= Seq::<StmtV>::empty());
                        }
                        let single = self.evaluate_stmt(new_env, &body, fuel - 1);
                        proof {
                            assert(eval_stmts_s(
                                crate::semantics::bind_params(st1, new_env as int, pv, av),
                                new_env as int,
                                seq![stmt_view(&body)],
                                fuel as nat,
                            ) == (StmtOut { st: self@, res: sres_of(single) }));
                        }
                        single
                    },
                };
                match outcome {
                    Ok(Flow::Completed) => Ok(Value::Nil),
                    Ok(Flow::ReturnedWith(v)) => Ok(v),
                    Err(f) => Err(f),
                }
            },
            _ => Err(Fault::Script(ErrorKind::NotCallable)),
        }
    }

    /// Executes one statement in frame `env`, exactly as the definitional
    /// evaluator does: same resulting state, same outcome.
    #[verifier::rlimit(100)]
    pub fn evaluate_stmt(&mut self, env: usize, stmt: &Statement, fuel: u64) -> (r: Result<
        Flow,
        Fault,
    >)
        requires
            old(self).wf(),
            env < old(self).env_count(),
        ensures
            final(self).wf(),
            evolves(old(self)@, final(self)@),
            eval_stmt_s(old(self)@, env as int, stmt@, fuel as nat) == (StmtOut {
                st: final(self)@,
                res: sres_of(r),
            }),
            r matches Ok(Flow::ReturnedWith(v)) ==> wf_value(final(self)@, v@),
        decreases fuel, 2int, 0int,
    {
        if fuel == 0 {
            return Err(Fault::Exhausted);
        }
        let f1 = fuel - 1;
        match stmt {
            Statement::Expression(e) => {
                match self.evaluate_expr(env, &e.expr, f1) {
                    Ok(_) => Ok(Flow::Completed),
                    Err(f) => Err(f),
                }
            },
            Statement::Print(p) => {
                let v = match self.evaluate_expr(env, &p.expr, f1) {
                    Ok(v) => v,
                    Err(f) => {
                        return Err(f);
                    },
                };
                let ghost pre = self@;
                let text = v.to_text();
                self.printer.print(text.as_str());
                proof {
                    assert(self@ =~= crate::semantics::add_output(
                        pre,
                        crate::value::text_of_value(v@),
                    ));
                    lemma_wf_same_shape(pre, self@);
                }
                Ok(Flow::Completed)
            },
            Statement::VariableDecl(d) => {
                let v = match &d.expr {
                    Some(e) => match self.evaluate_expr(env, e, f1) {
                        Ok(v) => v,
                        Err(f) => {
                            return Err(f);
                        },
                    },
                    None => Value::Nil,
                };
                self.define_variable(env, &d.name, v);
                Ok(Flow::Completed)
            },
            Statement::Block(b) => {
                let child = self.new_ptr(env);
                self.evaluate_stmts(child, &b.statements, fuel)
            },
            Statement::If(i) => {
                let c = match self.evaluate_expr(env, &i.condition, f1) {
                    Ok(v) => v,
                    Err(f) => {
                        return Err(f);
                    },
                };
                if c.is_truthy() {
                    self.evaluate_stmt(env, &i.then_branch, f1)
                } else {
                    match &i.else_branch {
                        Some(e) => self.evaluate_stmt(env, e, f1),
                        None => Ok(Flow::Completed),
                    }
                }
            },
            Statement::While(w) => self.evaluate_while(env, &w.condition, &w.body, fuel),
            Statement::Function(f) => {
                let fid = self.funs.len();
                let ghost st0 = self@;
                let record = FunctionObject {
                    name: f.name.clone(),
                    parameters: crate::ast::clone_names(&f.params),
                    body: Box::new(crate::ast::clone_stmt(&f.body)),
                    closure: env,
                };
                let ghost fv = (FunV {
                    name: f.name@,
                    params: f.params.deep_view(),
                    body: stmt_view(&f.body),
                    closure: env as int,
                });
                self.funs.push(record);
                proof {
                    assert(self@.funs =~= st0.funs.push(fv));
                    assert(self@ =~= crate::semantics::push_fun(st0, fv));
                    lemma_wf_push_fun(st0, fv);
                }
                self.define_variable(env, &f.name, Value::FunctionObject(crate::value::Object::new(fid)));
                Ok(Flow::Completed)
            },
            Statement::Return(rst) => {
                match &rst.value {
                    Some(e) => match self.evaluate_expr(env, e, f1) {
                        Ok(v) => Ok(Flow::ReturnedWith(v)),
                        Err(f) => Err(f),
                    },
                    None => Ok(Flow::ReturnedWith(Value::Nil)),
                }
            },
        }
    }

    /// Executes a sequence of statements in order in frame `env`; the first
    /// pending `return` or failure abandons the rest, and effects already
    /// performed stay performed.
    #[verifier::loop_isolation(false)]
    pub fn evaluate_stmts(&mut self, env: usize, stmts: &Vec<Statement>, fuel: u64) -> (r: Result<
        Flow,
        Fault,
    >)
        requires
            old(self).wf(),
            env < old(self).env_count(),
        ensures
            final(self).wf(),
            evolves(old(self)@, final(self)@),
            eval_stmts_s(old(self)@, env as int, crate::ast::stmts_view(stmts@), fuel as nat)
                == (StmtOut { st: final(self)@, res: sres_of(r) }),
            r matches Ok(Flow::ReturnedWith(v)) ==> wf_value(final(self)@, v@),
        decreases fuel, 1int, stmts.len(),
    {
        if fuel == 0 {
            return Err(Fault::Exhausted);
        }
        let ghost ss = crate::ast::stmts_view(stmts@);
        proof {
            crate::ast::lemma_stmts_view_index(stmts@);
            assert(ss.skip(0int) =~= ss);
        }
        let n = stmts.len();
        let mut i: usize = 0;
        loop
            invariant
                self.wf(),
                env < self.envs.len(),
                i <= n,
                n == stmts.len(),
                fuel >= 1,
                ss.len() == n,
                forall|j: int| 0 <= j < n ==> ss[j] == crate::ast::stmt_view(&stmts@[j]),
                evolves(old(self)@, self@),
                eval_stmts_s(old(self)@, env as int, ss, fuel as nat) == eval_stmts_s(
                    self@,
                    env as int,
                    ss.skip(i as int),
                    fuel as nat,
                ),
            decreases n - i,
        {
            if i >= n {
                break;
            }
            let ghost pre = self@;
            proof {
                assert(ss.skip(i as int)[0] == ss[i as int]);
                assert(ss.skip(i as int).drop_first() =~= ss.skip(i as int + 1));
            }
            let step = self.evaluate_stmt(env, &stmts[i], fuel - 1);
            proof {
                assert(eval_stmt_s(pre, env as int, ss[i as int], (fuel - 1) as nat) == (StmtOut {
                    st: self@,
                    res: sres_of(step),
                }));
                assert(eval_stmts_s(pre, env as int, ss.skip(i as int), fuel as nat) == (match sres_of(
                    step,
                ) {
                    SResV::Done => eval_stmts_s(
                        self@,
                        env as int,
                        ss.skip(i as int + 1),
                        fuel as nat,
                    ),
                    _ => StmtOut { st: self@, res: sres_of(step) },
                }));
            }
            match step {
                Ok(Flow::Completed) => {},
                Ok(Flow::ReturnedWith(v)) => {
                    return Ok(Flow::ReturnedWith(v));
                },
                Err(f) => {
                    return Err(f);
                },
            }
            i += 1;
        }
        proof {
            assert(ss.skip(n as int) =~= Seq::<StmtV>::empty());
        }
        Ok(Flow::Completed)
    }

    /// Runs a `while` loop in frame `env`: re-evaluates the condition
    /// before every iteration and stops as soon as it is falsy.
    #[verifier::loop_isolation(false)]
    fn evaluate_while(&mut self, env: usize, cond: &Expr, body: &Statement, fuel: u64) -> (r:
        Result<Flow, Fault>)
        requires
            old(self).wf(),
            env < old(self).env_count(),
        ensures
            final(self).wf(),
            evolves(old(self)@, final(self)@),
            eval_while_s(old(self)@, env as int, cond@, crate::ast::stmt_view(body), fuel as nat)
                == (StmtOut { st: final(self)@, res: sres_of(r) }),
            r matches Ok(Flow::ReturnedWith(v)) ==> wf_value(final(self)@, v@),
        decreases fuel, 1int, 0int,
    {
        let mut f = fuel;
        loop
            invariant
                self.wf(),
                env < self.envs.len(),
                f <= fuel,
                evolves(old(self)@, self@),
                eval_while_s(old(self)@, env as int, cond@, crate::ast::stmt_view(body), fuel as nat)
                    == eval_while_s(
                    self@,
                    env as int,
                    cond@,
                    crate::ast::stmt_view(body),
                    f as nat,
                ),
            decreases f,
        {
            if f == 0 {
                return Err(Fault::Exhausted);
            }
            let c = match self.evaluate_expr(env, cond, f - 1) {
                Ok(v) => v,
                Err(fa) => {
                    return Err(fa);
                },
            };
            if !c.is_truthy() {
                return Ok(Flow::Completed);
            }
            match self.evaluate_stmt(env, body, f - 1) {
                Ok(Flow::Completed) => {},
                Ok(Flow::ReturnedWith(v)) => {
                    return Ok(Flow::ReturnedWith(v));
                },
                Err(fa) => {
                    return Err(fa);
                },
            }
            f = f - 1;
        }
    }
}

impl<P: Printer> Interpreter<P> {
    /// Executes a whole program: its top-level statements in order in frame
    /// `env`, under the default evaluation budget. The first failure
    /// abandons the remaining statements; bindings already made persist.
    pub fn evaluate_program(&mut self, env: usize, statements: &Vec<Statement>) -> (r: Result<
        Flow,
        Fault,
    >)
        requires
            old(self).wf(),
            env < old(self).env_count(),
        ensures
            final(self).wf(),
            evolves(old(self)@, final(self)@),
            eval_stmts_s(
                old(self)@,
                env as int,
                crate::ast::stmts_view(statements@),
                EVAL_BUDGET as nat,
            ) == (StmtOut { st: final(self)@, res: sres_of(r) }),
    {
        self.evaluate_stmts(env, statements, EVAL_BUDGET)
    }
}

/// The capability shared by everything that can be called: native functions
/// and interpreted function objects. `ready` says when a call may be made
/// against a given abstract state.
pub trait Callable: Sized {
    /// When this callable can run against state `st`.
    spec fn ready(&self, st: StateV) -> bool;

    /// The number of arguments this callable expects.
    fn arity(&self) -> usize;

    /// Invokes the callable on already-evaluated arguments.
    fn call<Q: Printer>(&self, interpreter: &mut Interpreter<Q>, args: &Vec<Value>) -> (r: Result<
        Value,
        Fault,
    >)
        requires
            old(interpreter).wf(),
            self.ready(old(interpreter)@),
            forall|j: int|
                0 <= j < args.len() ==> wf_value(old(interpreter)@, #[trigger] args.deep_view()[j]),
        ensures
            final(interpreter).wf(),
    ;
}

impl Callable for NativeFunction {
    open spec fn ready(&self, st: StateV) -> bool {
        true
    }

    fn arity(&self) -> (r: usize)
        ensures
            r == self.arity,
    {
        self.arity
    }

    /// A native runs directly against the interpreter: it computes its
    /// result from the state, changes nothing, checks no arity, and never
    /// fails.
    fn call<Q: Printer>(&self, interpreter: &mut Interpreter<Q>, args: &Vec<Value>) -> (r: Result<
        Value,
        Fault,
    >)
        ensures
            final(interpreter).wf(),
            final(interpreter)@ == old(interpreter)@,
            eres_of(r) == EResV::Val(
                crate::semantics::native_result(old(interpreter)@, self.kind),
            ),
    {
        match self.kind {
            NativeKind::Clock => Ok(Value::Number(interpreter.clock_time)),
            NativeKind::Nop => Ok(Value::Nil),
        }
    }
}

impl Callable for FunctionObject {
    open spec fn ready(&self, st: StateV) -> bool {
        self.closure < st.envs.len()
    }

    fn arity(&self) -> (r: usize)
        ensures
            r == self.parameters.len(),
    {
        self.parameters.len()
    }

    /// Checks arity, binds the parameters in a fresh child frame of the
    /// captured closure frame, and runs the body there under the default
    /// budget; a `return` escaping the body becomes the call's value, and
    /// normal completion yields `Nil`. The contract is exact: the call
    /// behaves as [`call_fun_s`] says, including the `ArityMismatch`
    /// rejection that leaves the state untouched.
    #[verifier::rlimit(100)]
    #[verifier::loop_isolation(false)]
    fn call<Q: Printer>(&self, interpreter: &mut Interpreter<Q>, args: &Vec<Value>) -> (r: Result<
        Value,
        Fault,
    >)
        ensures
            final(interpreter).wf(),
            evolves(old(interpreter)@, final(interpreter)@),
            call_fun_s(old(interpreter)@, self@, args.deep_view(), EVAL_BUDGET as nat) == (ExprOut {
                st: final(interpreter)@,
                res: eres_of(r),
            }),
            r matches Ok(v) ==> wf_value(final(interpreter)@, v@),
    {
        if args.len() != self.parameters.len() {
            return Err(
                Fault::Script(
                    ErrorKind::ArityMismatch { expected: self.parameters.len(), given: args.len() },
                ),
            );
        }
        let ghost st0 = interpreter@;
        let environment = interpreter.new_ptr(self.closure);
        let ghost st1 = interpreter@;
        let ghost pv = self.parameters.deep_view();
        let ghost av = args.deep_view();
        proof {
            assert(pv.skip(0int) =~= pv);
            assert(av.skip(0int) =~= av);
        }
        let np = self.parameters.len();
        let mut j: usize = 0;
        loop
            invariant
                interpreter.wf(),
                environment < interpreter.env_count(),
                np == self.parameters.len(),
                np == args.len(),
                j <= np,
                forall|k: int|
                    0 <= k < args.len() ==> wf_value(
                        old(interpreter)@,
                        #[trigger] args.deep_view()[k],
                    ),
                evolves(old(interpreter)@, interpreter@),
                interpreter@.funs == st1.funs,
                crate::semantics::bind_params(st1, environment as int, pv, av)
                    == crate::semantics::bind_params(
                    interpreter@,
                    environment as int,
                    pv.skip(j as int),
                    av.skip(j as int),
                ),
            decreases np - j,
        {
            if j >= np {
                break;
            }
            proof {
                assert(pv.skip(j as int)[0] == pv[j as int]);
                assert(av.skip(j as int)[0] == av[j as int]);
                assert(pv.skip(j as int).drop_first() =~= pv.skip(j as int + 1));
                assert(av.skip(j as int).drop_first() =~= av.skip(j as int + 1));
            }
            let val = dup_value(&args[j]);
            proof {
                assert(wf_value(old(interpreter)@, args.deep_view()[j as int]));
                assert(wf_value(interpreter@, args.deep_view()[j as int]));
            }
            interpreter.define_variable(environment, &self.parameters[j], val);
            j += 1;
        }
        proof {
            assert(pv.skip(np as int) =~= Seq::<Seq<char>>::empty());
            assert(av.skip(np as int) =~= Seq::<ValueV>::empty());
            assert(crate::semantics::bind_params(st1, environment as int, pv, av)
                == interpreter@);
        }
        let outcome: Result<Flow, Fault> = match &*self.body {
            Statement::Block(b) => interpreter.evaluate_stmts(environment, &b.statements, EVAL_BUDGET),
            _ => {
                let body_ref: &Statement = &self.body;
                let ghost st2 = crate::semantics::bind_params(st1, environment as int, pv, av);
                proof {
                    assert(EVAL_BUDGET > 0);
                    assert(seq![stmt_view(body_ref)].drop_first() =~= Seq::<StmtV>::empty());
                    assert(seq![stmt_view(body_ref)][0int] == stmt_view(body_ref));
                }
                let single = interpreter.evaluate_stmt(environment, body_ref, EVAL_BUDGET - 1);
                proof {
                    assert((EVAL_BUDGET - 1) as nat == (EVAL_BUDGET as nat - 1) as nat);
                    assert(eval_stmt_s(
                        st2,
                        environment as int,
                        stmt_view(body_ref),
                        (EVAL_BUDGET - 1) as nat,
                    ) == (StmtOut { st: interpreter@, res: sres_of(single) }));
                    assert(eval_stmts_s(
                        interpreter@,
                        environment as int,
                        Seq::<StmtV>::empty(),
                        EVAL_BUDGET as nat,
                    ) == (StmtOut { st: interpreter@, res: SResV::Done }));
                    assert(eval_stmts_s(
                        st2,
                        environment as int,
                        seq![stmt_view(body_ref)],
                        EVAL_BUDGET as nat,
                    ) == (StmtOut { st: interpreter@, res: sres_of(single) }));
                    assert(stmt_view(body_ref) == stmt_view(&self.body));
                }
                single
            },
        };
        match outcome {
            Ok(Flow::Completed) => Ok(Value::Nil),
            Ok(Flow::ReturnedWith(v)) => Ok(v),
            Err(f) => Err(f),
        }
    }
}

impl<P: Printer> Interpreter<P> {
    /// Resolves `name` by walking exactly `distance` parent links from
    /// frame `env` and reading that frame's own mapping — the
    /// annotation-guided counterpart of [`Interpreter::get_variable`].
    pub fn get_variable_at(&self, env: usize, distance: usize, name: &String) -> (r: Result<
        Value,
        ErrorKind,
    >)
        requires
            self.wf(),
            env < self.env_count(),
        ensures
            match r {
                Ok(v) => lookup_at(self@, env as int, distance as nat, name@) == Some(v@)
                    && wf_value(self@, v@),
                Err(e) => lookup_at(self@, env as int, distance as nat, name@) is None && e@
                    == ErrorKindV::UndefinedVariable(name@),
            },
    {
        let mut cur = env;
        let mut k = distance;
        loop
            invariant
                self.wf(),
                cur < self.envs.len(),
                lookup_at(self@, env as int, distance as nat, name@) == lookup_at(
                    self@,
                    cur as int,
                    k as nat,
                    name@,
                ),
            decreases k,
        {
            proof {
                assert(crate::semantics::wf_frame(self@, cur as int));
            }
            if k == 0 {
                match self.envs[cur].get_local(name) {
                    Some(v) => {
                        return Ok(dup_value(v));
                    },
                    None => {
                        return Err(ErrorKind::UndefinedVariable(name.clone()));
                    },
                }
            }
            match self.envs[cur].parent {
                Some(p) => {
                    cur = p;
                    k = k - 1;
                },
                None => {
                    return Err(ErrorKind::UndefinedVariable(name.clone()));
                },
            }
        }
    }

    /// Overwrites the binding of `name` in the frame exactly `distance`
    /// parent links above `env` — the annotation-guided counterpart of
    /// [`Interpreter::assign_variable`]. Fails, changing nothing, when the
    /// chain is shorter or the target frame does not bind the name.
    pub fn assign_variable_at(
        &mut self,
        env: usize,
        distance: usize,
        name: &String,
        value: &Value,
    ) -> (r: Result<(), ErrorKind>)
        requires
            old(self).wf(),
            env < old(self).env_count(),
            wf_value(old(self)@, value@),
        ensures
            final(self).wf(),
            match r {
                Ok(_) => assign_at(old(self)@, env as int, distance as nat, name@, value@)
                    == Some(final(self)@),
                Err(e) => {
                    &&& assign_at(old(self)@, env as int, distance as nat, name@, value@) is None
                    &&& final(self)@ == old(self)@
                    &&& e@ == ErrorKindV::UndefinedVariable(name@)
                },
            },
    {
        let mut cur = env;
        let mut k = distance;
        loop
            invariant
                self.wf(),
                self@ == old(self)@,
                cur < self.envs.len(),
                wf_value(self@, value@),
                assign_at(self@, env as int, distance as nat, name@, value@) == assign_at(
                    self@,
                    cur as int,
                    k as nat,
                    name@,
                    value@,
                ),
            decreases k,
        {
            proof {
                assert(crate::semantics::wf_frame(self@, cur as int));
            }
            if k == 0 {
                if self.envs[cur].binds(name) {
                    let ghost before = self@;
                    let v = dup_value(value);
                    let frame = &mut self.envs[cur];
                    frame.define_local(name, v);
                    proof {
                        assert(self@.envs =~= define_in(before, cur as int, name@, value@).envs);
                        assert(self@ =~= define_in(before, cur as int, name@, value@));
                        lemma_wf_define_in(before, cur as int, name@, value@);
                    }
                    return Ok(());
                }
                return Err(ErrorKind::UndefinedVariable(name.clone()));
            }
            match self.envs[cur].parent {
                Some(p) => {
                    cur = p;
                    k = k - 1;
                },
                None => {
                    return Err(ErrorKind::UndefinedVariable(name.clone()));
                },
            }
        }
    }
}

/// Pushing a well-formed function record preserves well-formedness.
pub proof fn lemma_wf_push_fun(st: StateV, f: FunV)
    requires
        wf_state(st),
        0 <= f.closure < st.envs.len(),
    ensures
        wf_state(crate::semantics::push_fun(st, f)),
{
    let st2 = crate::semantics::push_fun(st, f);
    assert forall|i: int| 0 <= i < st2.envs.len() implies #[trigger] crate::semantics::wf_frame(
        st2,
        i,
    ) by {
        assert(crate::semantics::wf_frame(st, i));
        assert forall|k: Seq<char>| #[trigger] st2.envs[i].vars.contains_key(k) implies wf_value(
            st2,
            st2.envs[i].vars[k],
        ) by {
            assert(st.envs[i].vars.contains_key(k));
        }
    }
    assert forall|j: int| 0 <= j < st2.funs.len() implies #[trigger] crate::semantics::wf_fun(
        st2,
        j,
    ) by {
        if j < st.funs.len() {
            assert(crate::semantics::wf_fun(st, j));
        }
    }
}

/// Pushing a frame with a valid parent preserves well-formedness.
pub proof fn lemma_wf_push_env(st: StateV, parent: int)
    requires
        wf_state(st),
        0 <= parent < st.envs.len(),
    ensures
        wf_state(push_env(st, parent)),
{
    let st2 = push_env(st, parent);
    assert forall|i: int| 0 <= i < st2.envs.len() implies #[trigger] crate::semantics::wf_frame(
        st2,
        i,
    ) by {
        if i < st.envs.len() {
            assert(crate::semantics::wf_frame(st, i));
            assert(st2.envs[i] == st.envs[i]);
        }
    }
    assert forall|j: int| 0 <= j < st2.funs.len() implies #[trigger] crate::semantics::wf_fun(
        st2,
        j,
    ) by {
        assert(crate::semantics::wf_fun(st, j));
    }
}

/// Pushing any frame whose parent link is absent and whose values are well
/// formed preserves well-formedness.
pub proof fn lemma_wf_push_frame(st: StateV, f: FrameV)
    requires
        wf_state(st),
        f.parent is None,
        forall|k: Seq<char>| #[trigger] f.vars.contains_key(k) ==> !(f.vars[k] matches ValueV::Fun(
            _,
        )),
    ensures
        wf_state(StateV { envs: st.envs.push(f), ..st }),
{
    let st2 = StateV { envs: st.envs.push(f), ..st };
    assert forall|i: int| 0 <= i < st2.envs.len() implies #[trigger] crate::semantics::wf_frame(
        st2,
        i,
    ) by {
        if i < st.envs.len() {
            assert(crate::semantics::wf_frame(st, i));
            assert(st2.envs[i] == st.envs[i]);
        }
    }
    assert forall|j: int| 0 <= j < st2.funs.len() implies #[trigger] crate::semantics::wf_fun(
        st2,
        j,
    ) by {
        assert(crate::semantics::wf_fun(st, j));
    }
}

/// Defining a well-formed value preserves well-formedness.
pub proof fn lemma_wf_define_in(st: StateV, env: int, name: Seq<char>, v: ValueV)
    requires
        wf_state(st),
        0 <= env < st.envs.len(),
        wf_value(st, v),
    ensures
        wf_state(define_in(st, env, name, v)),
{
    let st2 = define_in(st, env, name, v);
    assert forall|i: int| 0 <= i < st2.envs.len() implies #[trigger] crate::semantics::wf_frame(
        st2,
        i,
    ) by {
        assert(crate::semantics::wf_frame(st, i));
        if i == env {
            assert forall|k: Seq<char>| #[trigger] st2.envs[i].vars.contains_key(k) implies
                wf_value(st2, st2.envs[i].vars[k]) by {
                if k != name {
                    assert(st.envs[i].vars.contains_key(k));
                }
            }
        } else {
            assert(st2.envs[i] == st.envs[i]);
        }
    }
    assert forall|j: int| 0 <= j < st2.funs.len() implies #[trigger] crate::semantics::wf_fun(
        st2,
        j,
    ) by {
        assert(crate::semantics::wf_fun(st, j));
    }
}

} // verus!
