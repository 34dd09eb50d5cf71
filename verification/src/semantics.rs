//! Definitional semantics of the language.
//!
//! The interpreter's contracts state that executing a statement or an
//! expression transforms the interpreter's abstract state exactly as the
//! spec-level evaluator defined here does. The evaluator is fuelled: every
//! recursive step consumes fuel, and running out of fuel is the abstract
//! counterpart of exhausting the host stack — a fatal condition distinct
//! from every script-level error.

use vstd::prelude::*;

use crate::ast::view::{ExprV, StmtV};
use crate::token::TokenKind;
use crate::value::{lit_value, text_of_value, truthy, val_eq, NativeKind, ValueV};

verus! {

/// View of one environment frame: its bindings and its optional parent,
/// identified by an index into the state's frame arena.
#[verifier::ext_equal]
pub struct FrameV {
    pub parent: Option<int>,
    pub vars: Map<Seq<char>, ValueV>,
}

/// View of a user-defined function object: immutable after creation.
#[verifier::ext_equal]
pub struct FunV {
    pub name: Seq<char>,
    pub params: Seq<Seq<char>>,
    pub body: StmtV,
    pub closure: int,
}

/// The interpreter's abstract state: every environment frame ever created,
/// every function object ever created, the text printed so far, and the
/// clock reading the host supplied.
#[verifier::ext_equal]
pub struct StateV {
    pub envs: Seq<FrameV>,
    pub funs: Seq<FunV>,
    pub output: Seq<Seq<char>>,
    pub clock: i64,
}

/// View of a script-level error.
pub enum ErrorKindV {
    UndefinedVariable(Seq<char>),
    UnsupportedOperator,
    DivisionByZero,
    ArityMismatch { expected: nat, given: nat },
    NotCallable,
}

/// View of a failure: a script-level error, or exhaustion of the evaluation
/// budget (the abstract stack overflow), which no handler intercepts.
pub enum FaultV {
    Script(ErrorKindV),
    Exhausted,
}

/// Outcome of evaluating an expression.
pub enum EResV {
    Val(ValueV),
    Flt(FaultV),
}

/// Outcome of evaluating a list of expressions left to right.
pub enum EsResV {
    Vals(Seq<ValueV>),
    Flt(FaultV),
}

/// How a statement finished when it did not fail: normal completion, or a
/// pending `return` carrying a value.
pub enum FlowV {
    Completed,
    ReturnedWith(ValueV),
}

/// Outcome of executing a statement: normal completion, a pending `return`
/// carrying a value, or a failure.
pub enum SResV {
    Done,
    Ret(ValueV),
    Flt(FaultV),
}

/// State and outcome after evaluating an expression.
pub struct ExprOut {
    pub st: StateV,
    pub res: EResV,
}

/// State and outcome after evaluating a list of expressions.
pub struct ExprsOut {
    pub st: StateV,
    pub res: EsResV,
}

/// State and outcome after executing a statement.
pub struct StmtOut {
    pub st: StateV,
    pub res: SResV,
}

// ---------------------------------------------------------------------------
// Well-formedness
// ---------------------------------------------------------------------------

/// A value is well formed when any function handle in it points into the
/// function arena.
pub open spec fn wf_value(st: StateV, v: ValueV) -> bool {
    v matches ValueV::Fun(i) ==> 0 <= i < st.funs.len()
}

/// A frame is well formed when its parent link points strictly downward in
/// the arena (so parent chains terminate) and its values are well formed.
pub open spec fn wf_frame(st: StateV, i: int) -> bool {
    &&& (st.envs[i].parent matches Some(p) ==> 0 <= p < i)
    &&& (forall|k: Seq<char>|
        #[trigger] st.envs[i].vars.contains_key(k) ==> wf_value(st, st.envs[i].vars[k]))
}

/// A function record is well formed when its closure frame exists.
pub open spec fn wf_fun(st: StateV, j: int) -> bool {
    0 <= st.funs[j].closure < st.envs.len()
}

/// Well-formedness of the whole state.
pub open spec fn wf_state(st: StateV) -> bool {
    &&& (forall|i: int| 0 <= i < st.envs.len() ==> #[trigger] wf_frame(st, i))
    &&& (forall|j: int| 0 <= j < st.funs.len() ==> #[trigger] wf_fun(st, j))
}

// ---------------------------------------------------------------------------
// Environment operations
// ---------------------------------------------------------------------------

/// Resolves `name` starting at frame `env` and following parent links: the
/// value of the nearest binding, or `None` when no frame in the chain binds
/// the name.
pub open spec fn lookup_chain(st: StateV, env: int, name: Seq<char>) -> Option<ValueV>
    decreases env,
{
    if !(0 <= env < st.envs.len()) {
        None
    } else if st.envs[env].vars.contains_key(name) {
        Some(st.envs[env].vars[name])
    } else {
        match st.envs[env].parent {
            Some(p) => if 0 <= p < env {
                lookup_chain(st, p, name)
            } else {
                None
            },
            None => None,
        }
    }
}

/// Overwrites the binding of `name` in the nearest frame of the chain that
/// already binds it; `None` when no frame in the chain binds the name. No
/// new binding is ever created.
pub open spec fn assign_chain(st: StateV, env: int, name: Seq<char>, v: ValueV) -> Option<StateV>
    decreases env,
{
    if !(0 <= env < st.envs.len()) {
        None
    } else if st.envs[env].vars.contains_key(name) {
        Some(define_in(st, env, name, v))
    } else {
        match st.envs[env].parent {
            Some(p) => if 0 <= p < env {
                assign_chain(st, p, name, v)
            } else {
                None
            },
            None => None,
        }
    }
}

/// Resolves `name` by walking exactly `d` parent links from frame `env`
/// and reading that frame's own mapping: the annotation-guided counterpart
/// of [`lookup_chain`]. `None` when the chain is shorter than `d` or the
/// target frame does not bind the name.
pub open spec fn lookup_at(st: StateV, env: int, d: nat, name: Seq<char>) -> Option<ValueV>
    decreases d,
{
    if !(0 <= env < st.envs.len()) {
        None
    } else if d == 0 {
        if st.envs[env].vars.contains_key(name) {
            Some(st.envs[env].vars[name])
        } else {
            None
        }
    } else {
        match st.envs[env].parent {
            Some(p) => if 0 <= p < env {
                lookup_at(st, p, (d - 1) as nat, name)
            } else {
                None
            },
            None => None,
        }
    }
}

/// Overwrites the binding of `name` in the frame exactly `d` parent links
/// above `env`: the annotation-guided counterpart of [`assign_chain`].
/// `None` when the chain is shorter than `d` or the target frame does not
/// bind the name.
pub open spec fn assign_at(st: StateV, env: int, d: nat, name: Seq<char>, v: ValueV) -> Option<
    StateV,
>
    decreases d,
{
    if !(0 <= env < st.envs.len()) {
        None
    } else if d == 0 {
        if st.envs[env].vars.contains_key(name) {
            Some(define_in(st, env, name, v))
        } else {
            None
        }
    } else {
        match st.envs[env].parent {
            Some(p) => if 0 <= p < env {
                assign_at(st, p, (d - 1) as nat, name, v)
            } else {
                None
            },
            None => None,
        }
    }
}

/// Inserts or overwrites the binding of `name` in frame `env` alone.
pub open spec fn define_in(st: StateV, env: int, name: Seq<char>, v: ValueV) -> StateV {
    StateV {
        envs: st.envs.update(
            env,
            FrameV { parent: st.envs[env].parent, vars: st.envs[env].vars.insert(name, v) },
        ),
        ..st
    }
}

/// Appends a fresh, empty frame whose parent is `parent`; the new frame's
/// index is the old frame count.
pub open spec fn push_env(st: StateV, parent: int) -> StateV {
    StateV { envs: st.envs.push(FrameV { parent: Some(parent), vars: Map::empty() }), ..st }
}

/// Appends a fresh function record; its handle is the old record count.
pub open spec fn push_fun(st: StateV, f: FunV) -> StateV {
    StateV { funs: st.funs.push(f), ..st }
}

/// Appends one line of output.
pub open spec fn add_output(st: StateV, text: Seq<char>) -> StateV {
    StateV { output: st.output.push(text), ..st }
}

/// Binds each parameter to the corresponding argument in frame `env`, in
/// order (a repeated parameter name keeps the last argument).
pub open spec fn bind_params(
    st: StateV,
    env: int,
    params: Seq<Seq<char>>,
    args: Seq<ValueV>,
) -> StateV
    decreases params.len(),
{
    if params.len() == 0 || args.len() == 0 {
        st
    } else {
        bind_params(define_in(st, env, params[0], args[0]), env, params.drop_first(), args.drop_first())
    }
}

/// A successful assignment changes one binding in one frame: the arena
/// shape — frame count, parent links and the function records — is kept.
pub proof fn lemma_assign_chain_shape(st: StateV, env: int, name: Seq<char>, v: ValueV)
    ensures
        assign_chain(st, env, name, v) matches Some(st2) ==> {
            &&& st2.envs.len() == st.envs.len()
            &&& st2.funs == st.funs
            &&& st2.output == st.output
            &&& st2.clock == st.clock
        },
    decreases env,
{
    if 0 <= env < st.envs.len() {
        if st.envs[env].vars.contains_key(name) {
        } else {
            match st.envs[env].parent {
                Some(p) => {
                    if 0 <= p < env {
                        lemma_assign_chain_shape(st, p, name, v);
                    }
                },
                None => {},
            }
        }
    }
}

/// A successful annotation-guided assignment changes one binding in one
/// frame: the arena shape is kept, as with [`lemma_assign_chain_shape`].
pub proof fn lemma_assign_at_shape(st: StateV, env: int, d: nat, name: Seq<char>, v: ValueV)
    ensures
        assign_at(st, env, d, name, v) matches Some(st2) ==> {
            &&& st2.envs.len() == st.envs.len()
            &&& st2.funs == st.funs
            &&& st2.output == st.output
            &&& st2.clock == st.clock
        },
    decreases d,
{
    if 0 <= env < st.envs.len() && d > 0 {
        match st.envs[env].parent {
            Some(p) => {
                if 0 <= p < env {
                    lemma_assign_at_shape(st, p, (d - 1) as nat, name, v);
                }
            },
            None => {},
        }
    }
}

// ---------------------------------------------------------------------------
// Operators
// ---------------------------------------------------------------------------

/// Result of a unary operation: `-` negates a number (wrapping at the
/// 64-bit boundary), `!` gives the negation of the operand's truthiness,
/// and every other combination is unsupported.
pub open spec fn eval_unop(op: TokenKind, v: ValueV) -> EResV {
    if op == TokenKind::Minus && (v matches ValueV::Number(_)) {
        EResV::Val(ValueV::Number(0i64.wrapping_sub(v->Number_0)))
    } else if op == TokenKind::Bang {
        EResV::Val(ValueV::Boolean(!truthy(v)))
    } else {
        EResV::Flt(FaultV::Script(ErrorKindV::UnsupportedOperator))
    }
}

/// Result of a binary operation. Arithmetic needs two numbers (`+` also
/// concatenates two strings) and wraps at the 64-bit boundary; division by
/// zero is an error; comparisons need two numbers; equality is [`val_eq`]
/// on any operands; everything else is unsupported.
pub open spec fn eval_binop(op: TokenKind, l: ValueV, r: ValueV) -> EResV {
    match (l, op, r) {
        (ValueV::Number(a), TokenKind::Plus, ValueV::Number(b)) => EResV::Val(
            ValueV::Number(a.wrapping_add(b)),
        ),
        (ValueV::Str(a), TokenKind::Plus, ValueV::Str(b)) => EResV::Val(ValueV::Str(a + b)),
        (ValueV::Number(a), TokenKind::Minus, ValueV::Number(b)) => EResV::Val(
            ValueV::Number(a.wrapping_sub(b)),
        ),
        (ValueV::Number(a), TokenKind::Star, ValueV::Number(b)) => EResV::Val(
            ValueV::Number(a.wrapping_mul(b)),
        ),
        (ValueV::Number(a), TokenKind::Slash, ValueV::Number(b)) => if b == 0 {
            EResV::Flt(FaultV::Script(ErrorKindV::DivisionByZero))
        } else {
            EResV::Val(
                ValueV::Number(
                    match a.checked_div(b) {
                        Some(q) => q,
                        None => i64::MIN,
                    },
                ),
            )
        },
        (ValueV::Number(a), TokenKind::Greater, ValueV::Number(b)) => EResV::Val(
            ValueV::Boolean(a > b),
        ),
        (ValueV::Number(a), TokenKind::GreaterEqual, ValueV::Number(b)) => EResV::Val(
            ValueV::Boolean(a >= b),
        ),
        (ValueV::Number(a), TokenKind::Less, ValueV::Number(b)) => EResV::Val(
            ValueV::Boolean(a < b),
        ),
        (ValueV::Number(a), TokenKind::LessEqual, ValueV::Number(b)) => EResV::Val(
            ValueV::Boolean(a <= b),
        ),
        (a, TokenKind::EqualEqual, b) => EResV::Val(ValueV::Boolean(val_eq(a, b))),
        (a, TokenKind::BangEqual, b) => EResV::Val(ValueV::Boolean(!val_eq(a, b))),
        _ => EResV::Flt(FaultV::Script(ErrorKindV::UnsupportedOperator)),
    }
}

/// What a native function returns; natives read the state but never change
/// it, and never fail.
pub open spec fn native_result(st: StateV, kind: NativeKind) -> ValueV {
    match kind {
        NativeKind::Clock => ValueV::Number(st.clock),
        NativeKind::Nop => ValueV::Nil,
    }
}

// ---------------------------------------------------------------------------
// The evaluator
// ---------------------------------------------------------------------------

/// Evaluates one expression in frame `env`.
pub open spec fn eval_expr_s(st: StateV, env: int, e: ExprV, fuel: nat) -> ExprOut
    decreases fuel, 3int, 0int,
{
    if fuel == 0 {
        ExprOut { st, res: EResV::Flt(FaultV::Exhausted) }
    } else {
        let f1: nat = (fuel - 1) as nat;
        match e {
            ExprV::Lit(l) => ExprOut { st, res: EResV::Val(lit_value(l)) },
            ExprV::Grouping(g) => eval_expr_s(st, env, *g, f1),
            ExprV::Variable { name, resolution } => {
                let looked = match resolution {
                    Some(d) => if d >= 0 {
                        lookup_at(st, env, d as nat, name)
                    } else {
                        None
                    },
                    None => lookup_chain(st, env, name),
                };
                match looked {
                    Some(v) => ExprOut { st, res: EResV::Val(v) },
                    None => ExprOut {
                        st,
                        res: EResV::Flt(FaultV::Script(ErrorKindV::UndefinedVariable(name))),
                    },
                }
            },
            ExprV::Assign { name, resolution, value } => {
                let o = eval_expr_s(st, env, *value, f1);
                match o.res {
                    EResV::Val(v) => {
                        let written = match resolution {
                            Some(d) => if d >= 0 {
                                assign_at(o.st, env, d as nat, name, v)
                            } else {
                                None
                            },
                            None => assign_chain(o.st, env, name, v),
                        };
                        match written {
                            Some(st2) => ExprOut { st: st2, res: EResV::Val(v) },
                            None => ExprOut {
                                st: o.st,
                                res: EResV::Flt(FaultV::Script(ErrorKindV::UndefinedVariable(name))),
                            },
                        }
                    },
                    EResV::Flt(_) => o,
                }
            },
            ExprV::Unary { operator, right } => {
                let o = eval_expr_s(st, env, *right, f1);
                match o.res {
                    EResV::Val(v) => ExprOut { st: o.st, res: eval_unop(operator, v) },
                    EResV::Flt(_) => o,
                }
            },
            ExprV::Binary { operator, left, right } => {
                let lo = eval_expr_s(st, env, *left, f1);
                match lo.res {
                    EResV::Val(lv) => {
                        let ro = eval_expr_s(lo.st, env, *right, f1);
                        match ro.res {
                            EResV::Val(rv) => ExprOut {
                                st: ro.st,
                                res: eval_binop(operator, lv, rv),
                            },
                            EResV::Flt(_) => ro,
                        }
                    },
                    EResV::Flt(_) => lo,
                }
            },
            ExprV::Logical { operator, left, right } => {
                let lo = eval_expr_s(st, env, *left, f1);
                match lo.res {
                    EResV::Val(lv) => {
                        if operator == TokenKind::Or && truthy(lv) {
                            lo
                        } else if operator == TokenKind::And && !truthy(lv) {
                            lo
                        } else {
                            eval_expr_s(lo.st, env, *right, f1)
                        }
                    },
                    EResV::Flt(_) => lo,
                }
            },
            ExprV::Call { callee, arguments } => {
                let co = eval_expr_s(st, env, *callee, f1);
                match co.res {
                    EResV::Val(cv) => {
                        let ao = eval_exprs_s(co.st, env, arguments, fuel);
                        match ao.res {
                            EsResV::Vals(vs) => eval_call_s(ao.st, cv, vs, fuel),
                            EsResV::Flt(f) => ExprOut { st: ao.st, res: EResV::Flt(f) },
                        }
                    },
                    EResV::Flt(_) => co,
                }
            },
        }
    }
}

/// Evaluates a list of expressions left to right, stopping at the first
/// failure.
pub open spec fn eval_exprs_s(st: StateV, env: int, es: Seq<ExprV>, fuel: nat) -> ExprsOut
    decreases fuel, 1int, es.len(),
{
    if fuel == 0 {
        ExprsOut { st, res: EsResV::Flt(FaultV::Exhausted) }
    } else if es.len() == 0 {
        ExprsOut { st, res: EsResV::Vals(Seq::empty()) }
    } else {
        let f1: nat = (fuel - 1) as nat;
        let o = eval_expr_s(st, env, es[0], f1);
        match o.res {
            EResV::Val(v) => {
                let rest = eval_exprs_s(o.st, env, es.drop_first(), fuel);
                match rest.res {
                    EsResV::Vals(vs) => ExprsOut {
                        st: rest.st,
                        res: EsResV::Vals(seq![v] + vs),
                    },
                    EsResV::Flt(_) => rest,
                }
            },
            EResV::Flt(f) => ExprsOut { st: o.st, res: EsResV::Flt(f) },
        }
    }
}

/// Calls a value: a native function computes its result from the state; a
/// function object checks arity, binds the parameters in a fresh frame
/// whose parent is the captured closure frame, runs the body there, and
/// yields the value of a `return` that escapes the body, `Nil` otherwise.
/// Every other value is not callable. The `return` signal is converted to
/// an ordinary value exactly here, at the call boundary; failures pass
/// through unchanged.
pub open spec fn eval_call_s(st: StateV, callee: ValueV, args: Seq<ValueV>, fuel: nat) -> ExprOut
    decreases fuel, 2int, 0int,
{
    if fuel == 0 {
        ExprOut { st, res: EResV::Flt(FaultV::Exhausted) }
    } else {
        match callee {
            ValueV::Native(nf) => ExprOut { st, res: EResV::Val(native_result(st, nf.kind)) },
            ValueV::Fun(id) => {
                if !(0 <= id < st.funs.len()) {
                    ExprOut { st, res: EResV::Flt(FaultV::Script(ErrorKindV::NotCallable)) }
                } else {
                    let f = st.funs[id];
                    if args.len() != f.params.len() {
                        ExprOut {
                            st,
                            res: EResV::Flt(
                                FaultV::Script(
                                    ErrorKindV::ArityMismatch {
                                        expected: f.params.len(),
                                        given: args.len(),
                                    },
                                ),
                            ),
                        }
                    } else {
                        let new_env: int = st.envs.len() as int;
                        let st1 = push_env(st, f.closure);
                        let st2 = bind_params(st1, new_env, f.params, args);
                        let body: Seq<StmtV> = match f.body {
                            StmtV::Block(ss) => ss,
                            _ => seq![f.body],
                        };
                        let o = eval_stmts_s(st2, new_env, body, fuel);
                        match o.res {
                            SResV::Done => ExprOut { st: o.st, res: EResV::Val(ValueV::Nil) },
                            SResV::Ret(v) => ExprOut { st: o.st, res: EResV::Val(v) },
                            SResV::Flt(f) => ExprOut { st: o.st, res: EResV::Flt(f) },
                        }
                    }
                }
            },
            _ => ExprOut { st, res: EResV::Flt(FaultV::Script(ErrorKindV::NotCallable)) },
        }
    }
}

/// Executes one statement in frame `env`.
pub open spec fn eval_stmt_s(st: StateV, env: int, s: StmtV, fuel: nat) -> StmtOut
    decreases fuel, 2int, 0int,
{
    if fuel == 0 {
        StmtOut { st, res: SResV::Flt(FaultV::Exhausted) }
    } else {
        let f1: nat = (fuel - 1) as nat;
        match s {
            StmtV::Expression(e) => {
                let o = eval_expr_s(st, env, *e, f1);
                match o.res {
                    EResV::Val(_) => StmtOut { st: o.st, res: SResV::Done },
                    EResV::Flt(f) => StmtOut { st: o.st, res: SResV::Flt(f) },
                }
            },
            StmtV::Print(e) => {
                let o = eval_expr_s(st, env, *e, f1);
                match o.res {
                    EResV::Val(v) => StmtOut {
                        st: add_output(o.st, text_of_value(v)),
                        res: SResV::Done,
                    },
                    EResV::Flt(f) => StmtOut { st: o.st, res: SResV::Flt(f) },
                }
            },
            StmtV::VariableDecl { name, init } => {
                match init {
                    Some(e) => {
                        let o = eval_expr_s(st, env, *e, f1);
                        match o.res {
                            EResV::Val(v) => StmtOut {
                                st: define_in(o.st, env, name, v),
                                res: SResV::Done,
                            },
                            EResV::Flt(f) => StmtOut { st: o.st, res: SResV::Flt(f) },
                        }
                    },
                    None => StmtOut { st: define_in(st, env, name, ValueV::Nil), res: SResV::Done },
                }
            },
            StmtV::Block(ss) => {
                let child: int = st.envs.len() as int;
                eval_stmts_s(push_env(st, env), child, ss, fuel)
            },
            StmtV::If { condition, then_branch, else_branch } => {
                let o = eval_expr_s(st, env, *condition, f1);
                match o.res {
                    EResV::Val(c) => {
                        if truthy(c) {
                            eval_stmt_s(o.st, env, *then_branch, f1)
                        } else {
                            match else_branch {
                                Some(e) => eval_stmt_s(o.st, env, *e, f1),
                                None => StmtOut { st: o.st, res: SResV::Done },
                            }
                        }
                    },
                    EResV::Flt(f) => StmtOut { st: o.st, res: SResV::Flt(f) },
                }
            },
            StmtV::While { condition, body } => eval_while_s(st, env, *condition, *body, fuel),
            StmtV::Function { name, params, body } => {
                let fid: int = st.funs.len() as int;
                let st1 = push_fun(st, FunV { name, params, body: *body, closure: env });
                StmtOut {
                    st: define_in(st1, env, name, ValueV::Fun(fid)),
                    res: SResV::Done,
                }
            },
            StmtV::Return(value) => {
                match value {
                    Some(e) => {
                        let o = eval_expr_s(st, env, *e, f1);
                        match o.res {
                            EResV::Val(v) => StmtOut { st: o.st, res: SResV::Ret(v) },
                            EResV::Flt(f) => StmtOut { st: o.st, res: SResV::Flt(f) },
                        }
                    },
                    None => StmtOut { st, res: SResV::Ret(ValueV::Nil) },
                }
            },
        }
    }
}

/// Executes statements in order; the first pending `return` or failure
/// abandons the rest, and effects already performed stay performed.
pub open spec fn eval_stmts_s(st: StateV, env: int, ss: Seq<StmtV>, fuel: nat) -> StmtOut
    decreases fuel, 1int, ss.len(),
{
    if fuel == 0 {
        StmtOut { st, res: SResV::Flt(FaultV::Exhausted) }
    } else if ss.len() == 0 {
        StmtOut { st, res: SResV::Done }
    } else {
        let f1: nat = (fuel - 1) as nat;
        let o = eval_stmt_s(st, env, ss[0], f1);
        match o.res {
            SResV::Done => eval_stmts_s(o.st, env, ss.drop_first(), fuel),
            _ => o,
        }
    }
}

/// Calls a function record directly: the arity check, the fresh child
/// frame of the captured closure frame, the parameter binding, and the
/// run of the body there, with a `return` intercepted at this boundary.
/// [`eval_call_s`] goes through this for every function object in the
/// arena; the `Callable` impls' contracts use it on a free-standing
/// record.
pub open spec fn call_fun_s(st: StateV, f: FunV, args: Seq<ValueV>, fuel: nat) -> ExprOut {
    if args.len() != f.params.len() {
        ExprOut {
            st,
            res: EResV::Flt(
                FaultV::Script(
                    ErrorKindV::ArityMismatch { expected: f.params.len(), given: args.len() },
                ),
            ),
        }
    } else {
        let new_env: int = st.envs.len() as int;
        let st1 = push_env(st, f.closure);
        let st2 = bind_params(st1, new_env, f.params, args);
        let body: Seq<StmtV> = match f.body {
            StmtV::Block(ss) => ss,
            _ => seq![f.body],
        };
        let o = eval_stmts_s(st2, new_env, body, fuel);
        match o.res {
            SResV::Done => ExprOut { st: o.st, res: EResV::Val(ValueV::Nil) },
            SResV::Ret(v) => ExprOut { st: o.st, res: EResV::Val(v) },
            SResV::Flt(fl) => ExprOut { st: o.st, res: EResV::Flt(fl) },
        }
    }
}

/// With fuel in hand, calling a function handle is calling its record.
pub proof fn lemma_eval_call_via_fun(st: StateV, id: int, args: Seq<ValueV>, fuel: nat)
    requires
        0 <= id < st.funs.len(),
        fuel > 0,
    ensures
        eval_call_s(st, ValueV::Fun(id), args, fuel) == call_fun_s(st, st.funs[id], args, fuel),
{
}

/// Runs a `while` loop: re-evaluates the condition before every iteration
/// and stops as soon as it is falsy; each iteration consumes fuel.
pub open spec fn eval_while_s(st: StateV, env: int, cond: ExprV, body: StmtV, fuel: nat) -> StmtOut
    decreases fuel, 1int, 0int,
{
    if fuel == 0 {
        StmtOut { st, res: SResV::Flt(FaultV::Exhausted) }
    } else {
        let f1: nat = (fuel - 1) as nat;
        let o = eval_expr_s(st, env, cond, f1);
        match o.res {
            EResV::Val(c) => {
                if !truthy(c) {
                    StmtOut { st: o.st, res: SResV::Done }
                } else {
                    let b = eval_stmt_s(o.st, env, body, f1);
                    match b.res {
                        SResV::Done => eval_while_s(b.st, env, cond, body, f1),
                        _ => b,
                    }
                }
            },
            EResV::Flt(f) => StmtOut { st: o.st, res: SResV::Flt(f) },
        }
    }
}

} // verus!
