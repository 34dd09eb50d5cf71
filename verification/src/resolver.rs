//! The static resolver: a pure pass over the syntax tree that computes, for
//! every variable reference and assignment, how many scope levels to walk
//! outward to reach the binding, and rejects programs that reference
//! undefined names or declare a name twice in one scope.
//!
//! The pass produces an annotated copy of the tree; the input is never
//! changed. Scopes form a stack of frames, pushed for blocks and function
//! bodies and popped on the way out.
//!
//! The pass is an optional front: an annotated reference makes the
//! evaluator walk exactly the computed distance, while an unannotated one
//! falls back to dynamic search along the environment chain, so resolved
//! and unresolved trees both evaluate. Scope levels here mirror the
//! evaluator's frames — in particular, a function body shares the
//! parameter level, as the body shares the parameter frame at run time —
//! so the computed distances count exactly the parent links the evaluator
//! will walk.

use vstd::prelude::*;
use vstd::string::StringExecFns;

use crate::ast::view::{ExprV, StmtV};
use crate::ast::{clone_literal, expr, statement, Expr, Statement};
use crate::env::{
    assoc_map, lemma_assoc_map_props, lemma_assoc_map_push, lemma_assoc_map_update, unique_names,
};

verus! {

broadcast use vstd::std_specs::vec::group_vec_axioms;

/// How far a declaration has progressed: a name is `Declared` while its
/// initializer is being resolved and `Initialized` afterwards; only an
/// initialized binding resolves a reference.
#[derive(Debug, Copy, Clone, PartialEq, Eq, Structural)]
pub enum VariableState {
    Declared,
    Initialized,
}

/// View of a scope stack: one name-to-state mapping per level, the root
/// first and the innermost level last.
pub type ScopeV = Seq<Map<Seq<char>, VariableState>>;

/// A resolution error.
#[derive(Debug, Clone)]
pub enum ResolveError {
    /// A reference or assignment to a name no enclosing scope defines.
    UndefinedVariable(String),
    /// A second declaration of a name in the same scope.
    AlreadyDeclared(String),
}

/// View of a resolution error.
pub enum ResolveErrorV {
    UndefinedVariable(Seq<char>),
    AlreadyDeclared(Seq<char>),
}

impl View for ResolveError {
    type V = ResolveErrorV;

    open spec fn view(&self) -> ResolveErrorV {
        match self {
            ResolveError::UndefinedVariable(n) => ResolveErrorV::UndefinedVariable(n@),
            ResolveError::AlreadyDeclared(n) => ResolveErrorV::AlreadyDeclared(n@),
        }
    }
}

impl ResolveError {
    /// A human-readable description of the error, naming the variable.
    pub fn message(&self) -> (s: String)
        ensures
            s@ == (match self {
                ResolveError::UndefinedVariable(n) => "Referenced undefined varable: "@ + n@,
                ResolveError::AlreadyDeclared(n) =>
                    "Already a variable with this name in this scope: "@ + n@,
            }),
    {
        match self {
            ResolveError::UndefinedVariable(n) => {
                let mut s = String::from_str("Referenced undefined varable: ");
                s.append(n.as_str());
                s
            },
            ResolveError::AlreadyDeclared(n) => {
                let mut s = String::from_str(
                    "Already a variable with this name in this scope: ",
                );
                s.append(n.as_str());
                s
            },
        }
    }
}

/// One level of the scope stack.
#[derive(Debug)]
pub struct ScopeFrame {
    pub names: Vec<String>,
    pub states: Vec<VariableState>,
}

/// The mapping a scope frame denotes.
pub open spec fn frame_map(f: ScopeFrame) -> Map<Seq<char>, VariableState> {
    assoc_map(f.names.deep_view(), f.states@)
}

impl ScopeFrame {
    /// Parallel columns of equal length, names unique.
    pub open spec fn inv(&self) -> bool {
        &&& self.names.len() == self.states.len()
        &&& unique_names(self.names.deep_view())
    }

    /// Creates an empty frame.
    fn empty() -> (r: ScopeFrame)
        ensures
            r.inv(),
            frame_map(r) == Map::<Seq<char>, VariableState>::empty(),
    {
        ScopeFrame { names: Vec::new(), states: Vec::new() }
    }

    /// The position of `name` in this frame, if present.
    fn find(&self, name: &String) -> (r: Option<usize>)
        requires
            self.inv(),
        ensures
            match r {
                Some(i) => i < self.names.len() && self.names.deep_view()[i as int] == name@,
                None => !self.names.deep_view().contains(name@),
            },
    {
        let n = self.names.len();
        let mut i: usize = 0;
        while i < n
            invariant
                i <= n,
                n == self.names.len(),
                forall|j: int| 0 <= j < i ==> self.names.deep_view()[j] != name@,
            decreases n - i,
        {
            if self.names[i] == *name {
                return Some(i);
            }
            i += 1;
        }
        None
    }

    /// The recorded state of `name` in this frame, if present.
    fn get_state(&self, name: &String) -> (r: Option<VariableState>)
        requires
            self.inv(),
        ensures
            match r {
                Some(st) => frame_map(*self).contains_key(name@) && frame_map(*self)[name@] == st,
                None => !frame_map(*self).contains_key(name@),
            },
    {
        proof {
            lemma_assoc_map_props(self.names.deep_view(), self.states@);
        }
        match self.find(name) {
            Some(i) => Some(self.states[i]),
            None => None,
        }
    }

    /// Records `name` with the given state, inserting or overwriting.
    fn set_state(&mut self, name: &String, st: VariableState)
        requires
            old(self).inv(),
        ensures
            final(self).inv(),
            frame_map(*final(self)) == frame_map(*old(self)).insert(name@, st),
    {
        proof {
            lemma_assoc_map_props(self.names.deep_view(), self.states@);
        }
        match self.find(name) {
            Some(i) => {
                proof {
                    lemma_assoc_map_update(self.names.deep_view(), self.states@, i as int, st);
                }
                let ghost old_states = self.states@;
                self.states[i] = st;
                proof {
                    assert(self.states@ =~= old_states.update(i as int, st));
                }
            },
            None => {
                proof {
                    lemma_assoc_map_push(self.names.deep_view(), self.states@, name@, st);
                }
                let ghost old_names = self.names.deep_view();
                let ghost old_states = self.states@;
                self.names.push(name.clone());
                self.states.push(st);
                proof {
                    assert(self.names.deep_view() =~= old_names.push(name@));
                    assert(self.states@ =~= old_states.push(st));
                    assert(unique_names(old_names.push(name@)));
                }
            },
        }
    }
}

/// A lexical scope stack: at least one level deep, the innermost level on
/// top.
#[derive(Debug)]
pub struct Scope {
    pub frames: Vec<ScopeFrame>,
}

/// Scopes need no shared ownership here: a child scope simply extends its
/// parent's stack and is dropped again on the way out.
pub type ScopePtr = Scope;

impl View for Scope {
    type V = ScopeV;

    open spec fn view(&self) -> ScopeV {
        Seq::new(self.frames@.len(), |i: int| frame_map(self.frames@[i]))
    }
}

/// Resolves `name` against a scope stack: the number of levels between the
/// innermost level and the nearest level that holds `name` as
/// `Initialized`; a level that holds the name only as `Declared` defers to
/// the levels outside it.
pub open spec fn scope_resolve(sc: ScopeV, name: Seq<char>) -> Option<int>
    decreases sc.len(),
{
    if sc.len() == 0 {
        None
    } else if sc.last().contains_key(name) && sc.last()[name] == VariableState::Initialized {
        Some(0)
    } else {
        match scope_resolve(sc.drop_last(), name) {
            Some(d) => Some(d + 1),
            None => None,
        }
    }
}

impl Scope {
    /// Every frame consistent, and at least one level.
    pub open spec fn inv(&self) -> bool {
        &&& self.frames.len() >= 1
        &&& (forall|i: int| 0 <= i < self.frames.len() ==> (#[trigger] self.frames@[i]).inv())
    }

    /// Creates a scope: a fresh innermost level on top of `parent`, or a
    /// root scope of one level.
    pub fn new(parent: Option<Scope>) -> (r: Scope)
        requires
            parent matches Some(p) ==> p.inv(),
        ensures
            r.inv(),
            r@ == (match parent {
                Some(p) => p@.push(Map::<Seq<char>, VariableState>::empty()),
                None => seq![Map::<Seq<char>, VariableState>::empty()],
            }),
    {
        match parent {
            Some(mut p) => {
                let ghost before = p@;
                p.frames.push(ScopeFrame::empty());
                proof {
                    assert(p@ =~= before.push(Map::<Seq<char>, VariableState>::empty()));
                }
                p
            },
            None => {
                let mut frames: Vec<ScopeFrame> = Vec::new();
                frames.push(ScopeFrame::empty());
                let s = Scope { frames };
                proof {
                    assert(s@ =~= seq![Map::<Seq<char>, VariableState>::empty()]);
                }
                s
            },
        }
    }

    /// Creates a scope, as [`Scope::new`] does. The name is kept from an
    /// earlier design where scopes were shared through pointers.
    pub fn new_ptr(parent: Option<ScopePtr>) -> (r: ScopePtr)
        requires
            parent matches Some(p) ==> p.inv(),
        ensures
            r.inv(),
            r@ == (match parent {
                Some(p) => p@.push(Map::<Seq<char>, VariableState>::empty()),
                None => seq![Map::<Seq<char>, VariableState>::empty()],
            }),
    {
        Scope::new(parent)
    }

    /// Pushes a fresh, empty innermost level.
    fn push_frame(&mut self)
        requires
            old(self).inv(),
        ensures
            final(self).inv(),
            final(self)@ == old(self)@.push(Map::<Seq<char>, VariableState>::empty()),
    {
        let ghost before = self@;
        self.frames.push(ScopeFrame::empty());
        proof {
            assert(self@ =~= before.push(Map::<Seq<char>, VariableState>::empty()));
        }
    }

    /// Pops the innermost level.
    fn pop_frame(&mut self)
        requires
            old(self).inv(),
            old(self)@.len() >= 2,
        ensures
            final(self).inv(),
            final(self)@ == old(self)@.drop_last(),
    {
        let ghost before = self@;
        let _ = self.frames.pop();
        proof {
            assert(self@ =~= before.drop_last());
        }
    }

    /// Whether the innermost level itself holds `name`, in any state.
    fn top_binds(&self, name: &String) -> (r: bool)
        requires
            self.inv(),
        ensures
            r == self@.last().contains_key(name@),
    {
        let top = self.frames.len() - 1;
        match self.frames[top].get_state(name) {
            Some(_) => true,
            None => false,
        }
    }

    /// Records `name` with the given state in the innermost level.
    fn set_top(&mut self, name: &String, st: VariableState)
        requires
            old(self).inv(),
        ensures
            final(self).inv(),
            final(self)@ == old(self)@.update(
                old(self)@.len() - 1,
                old(self)@.last().insert(name@, st),
            ),
    {
        let ghost before = self@;
        let top = self.frames.len() - 1;
        let frame = &mut self.frames[top];
        frame.set_state(name, st);
        proof {
            assert(self@ =~= before.update(before.len() - 1, before.last().insert(name@, st)));
        }
    }

    /// Resolves `name` against this scope stack, as [`scope_resolve`] does.
    #[verifier::loop_isolation(false)]
    pub fn resolve(&self, name: &String) -> (r: Option<usize>)
        requires
            self.inv(),
        ensures
            match r {
                Some(d) => scope_resolve(self@, name@) == Some(d as int),
                None => scope_resolve(self@, name@) is None,
            },
    {
        let n = self.frames.len();
        let mut k: usize = 0;
        proof {
            assert(self@.take(n as int) =~= self@);
        }
        loop
            invariant
                k <= n,
                scope_resolve(self@, name@) == (match scope_resolve(
                    self@.take((n - k) as int),
                    name@,
                ) {
                    Some(d) => Some(d + k),
                    None => None::<int>,
                }),
            decreases n - k,
        {
            if k >= n {
                return None;
            }
            let idx = n - 1 - k;
            proof {
                assert(self@.take((n - k) as int).last() == self@[idx as int]);
                assert(self@.take((n - k) as int).drop_last() =~= self@.take((n - k - 1) as int));
            }
            match self.frames[idx].get_state(name) {
                Some(VariableState::Initialized) => {
                    return Some(k);
                },
                _ => {},
            }
            k += 1;
        }
    }
}

/// Updates the innermost level of a scope stack.
pub open spec fn scope_set(sc: ScopeV, name: Seq<char>, st: VariableState) -> ScopeV {
    sc.update(sc.len() - 1, sc.last().insert(name, st))
}

/// Marks every parameter `Initialized` in the innermost level, in order.
pub open spec fn scope_bind(sc: ScopeV, params: Seq<Seq<char>>) -> ScopeV
    decreases params.len(),
{
    if params.len() == 0 {
        sc
    } else {
        scope_bind(scope_set(sc, params[0], VariableState::Initialized), params.drop_first())
    }
}

/// Scope stack and outcome after resolving a statement.
pub struct RStmtOut {
    pub sc: ScopeV,
    pub res: Result<StmtV, ResolveErrorV>,
}

/// Scope stack and outcome after resolving a statement sequence.
pub struct RStmtsOut {
    pub sc: ScopeV,
    pub res: Result<Seq<StmtV>, ResolveErrorV>,
}

/// Resolves one expression against a scope stack: the same tree with every
/// variable reference and assignment annotated with its lexical distance,
/// or the first error.
pub open spec fn resolve_expr_s(sc: ScopeV, e: ExprV) -> Result<ExprV, ResolveErrorV>
    decreases e,
{
    match e {
        ExprV::Binary { operator, left, right } => match resolve_expr_s(sc, *left) {
            Ok(l2) => match resolve_expr_s(sc, *right) {
                Ok(r2) => Ok(ExprV::Binary { operator, left: Box::new(l2), right: Box::new(r2) }),
                Err(er) => Err(er),
            },
            Err(er) => Err(er),
        },
        ExprV::Grouping(g) => match resolve_expr_s(sc, *g) {
            Ok(g2) => Ok(ExprV::Grouping(Box::new(g2))),
            Err(er) => Err(er),
        },
        ExprV::Lit(l) => Ok(ExprV::Lit(l)),
        ExprV::Unary { operator, right } => match resolve_expr_s(sc, *right) {
            Ok(r2) => Ok(ExprV::Unary { operator, right: Box::new(r2) }),
            Err(er) => Err(er),
        },
        ExprV::Variable { name, resolution } => match scope_resolve(sc, name) {
            Some(d) => Ok(ExprV::Variable { name, resolution: Some(d) }),
            None => Err(ResolveErrorV::UndefinedVariable(name)),
        },
        ExprV::Assign { name, resolution, value } => match scope_resolve(sc, name) {
            Some(d) => match resolve_expr_s(sc, *value) {
                Ok(v2) => Ok(ExprV::Assign { name, resolution: Some(d), value: Box::new(v2) }),
                Err(er) => Err(er),
            },
            None => Err(ResolveErrorV::UndefinedVariable(name)),
        },
        ExprV::Logical { operator, left, right } => match resolve_expr_s(sc, *left) {
            Ok(l2) => match resolve_expr_s(sc, *right) {
                Ok(r2) => Ok(ExprV::Logical { operator, left: Box::new(l2), right: Box::new(r2) }),
                Err(er) => Err(er),
            },
            Err(er) => Err(er),
        },
        ExprV::Call { callee, arguments } => match resolve_expr_s(sc, *callee) {
            Ok(c2) => match resolve_exprs_s(sc, arguments) {
                Ok(a2) => Ok(ExprV::Call { callee: Box::new(c2), arguments: a2 }),
                Err(er) => Err(er),
            },
            Err(er) => Err(er),
        },
    }
}

/// Resolves a list of expressions left to right, stopping at the first
/// error.
pub open spec fn resolve_exprs_s(sc: ScopeV, es: Seq<ExprV>) -> Result<Seq<ExprV>, ResolveErrorV>
    decreases es,
{
    if es.len() == 0 {
        Ok(Seq::empty())
    } else {
        match resolve_expr_s(sc, es[0]) {
            Ok(e2) => match resolve_exprs_s(sc, es.drop_first()) {
                Ok(rest) => Ok(seq![e2] + rest),
                Err(er) => Err(er),
            },
            Err(er) => Err(er),
        }
    }
}

/// Resolves one statement. Declarations change the scope stack; blocks and
/// function bodies work in a pushed level that is popped again on the way
/// out, whether resolution succeeded or failed.
pub open spec fn resolve_stmt_s(sc: ScopeV, s: StmtV) -> RStmtOut
    decreases s,
{
    match s {
        StmtV::Expression(e) => RStmtOut {
            sc,
            res: match resolve_expr_s(sc, *e) {
                Ok(e2) => Ok(StmtV::Expression(Box::new(e2))),
                Err(er) => Err(er),
            },
        },
        StmtV::Print(e) => RStmtOut {
            sc,
            res: match resolve_expr_s(sc, *e) {
                Ok(e2) => Ok(StmtV::Print(Box::new(e2))),
                Err(er) => Err(er),
            },
        },
        StmtV::VariableDecl { name, init } => {
            if sc.last().contains_key(name) {
                RStmtOut { sc, res: Err(ResolveErrorV::AlreadyDeclared(name)) }
            } else {
                let sc1 = scope_set(sc, name, VariableState::Declared);
                match init {
                    Some(e) => match resolve_expr_s(sc1, *e) {
                        Ok(e2) => RStmtOut {
                            sc: scope_set(sc1, name, VariableState::Initialized),
                            res: Ok(StmtV::VariableDecl { name, init: Some(Box::new(e2)) }),
                        },
                        Err(er) => RStmtOut { sc: sc1, res: Err(er) },
                    },
                    None => RStmtOut {
                        sc: scope_set(sc1, name, VariableState::Initialized),
                        res: Ok(StmtV::VariableDecl { name, init: None }),
                    },
                }
            }
        },
        StmtV::Block(ss) => {
            let o = resolve_stmts_s(sc.push(Map::empty()), ss);
            RStmtOut {
                sc: o.sc.drop_last(),
                res: match o.res {
                    Ok(ss2) => Ok(StmtV::Block(ss2)),
                    Err(er) => Err(er),
                },
            }
        },
        StmtV::If { condition, then_branch, else_branch } => match resolve_expr_s(sc, *condition) {
            Ok(c2) => {
                let o1 = resolve_stmt_s(sc, *then_branch);
                match o1.res {
                    Ok(t2) => match else_branch {
                        Some(eb) => {
                            let o2 = resolve_stmt_s(o1.sc, *eb);
                            match o2.res {
                                Ok(e2) => RStmtOut {
                                    sc: o2.sc,
                                    res: Ok(
                                        StmtV::If {
                                            condition: Box::new(c2),
                                            then_branch: Box::new(t2),
                                            else_branch: Some(Box::new(e2)),
                                        },
                                    ),
                                },
                                Err(er) => RStmtOut { sc: o2.sc, res: Err(er) },
                            }
                        },
                        None => RStmtOut {
                            sc: o1.sc,
                            res: Ok(
                                StmtV::If {
                                    condition: Box::new(c2),
                                    then_branch: Box::new(t2),
                                    else_branch: None,
                                },
                            ),
                        },
                    },
                    Err(er) => RStmtOut { sc: o1.sc, res: Err(er) },
                }
            },
            Err(er) => RStmtOut { sc, res: Err(er) },
        },
        StmtV::While { condition, body } => match resolve_expr_s(sc, *condition) {
            Ok(c2) => {
                let o = resolve_stmt_s(sc, *body);
                match o.res {
                    Ok(b2) => RStmtOut {
                        sc: o.sc,
                        res: Ok(StmtV::While { condition: Box::new(c2), body: Box::new(b2) }),
                    },
                    Err(er) => RStmtOut { sc: o.sc, res: Err(er) },
                }
            },
            Err(er) => RStmtOut { sc, res: Err(er) },
        },
        StmtV::Function { name, params, body } => {
            let sc1 = scope_set(sc, name, VariableState::Initialized);
            let sc2 = scope_bind(sc1.push(Map::empty()), params);
            // The parameter level doubles as the body's block scope, as it
            // does at run time: a body block adds no further level.
            let o = match *body {
                StmtV::Block(ss) => {
                    let oz = resolve_stmts_s(sc2, ss);
                    RStmtOut {
                        sc: oz.sc,
                        res: match oz.res {
                            Ok(ss2) => Ok(StmtV::Block(ss2)),
                            Err(er) => Err(er),
                        },
                    }
                },
                _ => resolve_stmt_s(sc2, *body),
            };
            RStmtOut {
                sc: o.sc.drop_last(),
                res: match o.res {
                    Ok(b2) => Ok(StmtV::Function { name, params, body: Box::new(b2) }),
                    Err(er) => Err(er),
                },
            }
        },
        StmtV::Return(value) => match value {
            Some(e) => RStmtOut {
                sc,
                res: match resolve_expr_s(sc, *e) {
                    Ok(e2) => Ok(StmtV::Return(Some(Box::new(e2)))),
                    Err(er) => Err(er),
                },
            },
            None => RStmtOut { sc, res: Ok(StmtV::Return(None)) },
        },
    }
}

/// Resolves statements in order, threading the scope stack; the first
/// error abandons the rest.
pub open spec fn resolve_stmts_s(sc: ScopeV, ss: Seq<StmtV>) -> RStmtsOut
    decreases ss,
{
    if ss.len() == 0 {
        RStmtsOut { sc, res: Ok(Seq::empty()) }
    } else {
        let o = resolve_stmt_s(sc, ss[0]);
        match o.res {
            Ok(s2) => {
                let rest = resolve_stmts_s(o.sc, ss.drop_first());
                RStmtsOut {
                    sc: rest.sc,
                    res: match rest.res {
                        Ok(ss2) => Ok(seq![s2] + ss2),
                        Err(er) => Err(er),
                    },
                }
            },
            Err(er) => RStmtsOut { sc: o.sc, res: Err(er) },
        }
    }
}

/// Prepends already-resolved statements to the outcome of resolving the
/// rest.
pub open spec fn rstmts_cont(front: Seq<StmtV>, o: RStmtsOut) -> RStmtsOut {
    RStmtsOut {
        sc: o.sc,
        res: match o.res {
            Ok(ss2) => Ok(front + ss2),
            Err(er) => Err(er),
        },
    }
}

/// The outcome view of an expression resolution result.
pub open spec fn rres_expr(r: Result<Expr, ResolveError>) -> Result<ExprV, ResolveErrorV> {
    match r {
        Ok(e) => Ok(e@),
        Err(er) => Err(er@),
    }
}

/// The outcome view of a statement resolution result.
pub open spec fn rres_stmt(r: Result<Statement, ResolveError>) -> Result<StmtV, ResolveErrorV> {
    match r {
        Ok(s) => Ok(s@),
        Err(er) => Err(er@),
    }
}

/// A statement that went through the resolver.
pub struct ResolvedStatement(pub Statement);

/// The resolver pass. It holds no state of its own; the scope stack is
/// threaded through the calls.
pub struct Resolver;

impl Resolver {
    /// Resolves one statement against `scope`, exactly as
    /// [`resolve_stmt_s`] does: the annotated copy or the first error, with
    /// `scope` updated by any declarations.
    #[verifier::rlimit(80)]
    #[verifier::loop_isolation(false)]
    pub fn resolve_statement(&mut self, scope: &mut Scope, statement: &Statement) -> (r: Result<
        Statement,
        ResolveError,
    >)
        requires
            old(scope).inv(),
        ensures
            final(scope).inv(),
            final(scope)@.len() == old(scope)@.len(),
            resolve_stmt_s(old(scope)@, statement@) == (RStmtOut {
                sc: final(scope)@,
                res: rres_stmt(r),
            }),
        decreases statement,
    {
        match statement {
            Statement::Expression(e) => match self.resolve_expression(scope, &e.expr) {
                Ok(e2) => Ok(Statement::Expression(
                    Box::new(statement::Expression { id: e.id, expr: e2 }),
                )),
                Err(er) => Err(er),
            },
            Statement::Print(p) => match self.resolve_expression(scope, &p.expr) {
                Ok(e2) => Ok(Statement::Print(Box::new(statement::Print { id: p.id, expr: e2 }))),
                Err(er) => Err(er),
            },
            Statement::VariableDecl(d) => {
                if scope.top_binds(&d.name) {
                    return Err(ResolveError::AlreadyDeclared(d.name.clone()));
                }
                scope.set_top(&d.name, VariableState::Declared);
                let init2 = match &d.expr {
                    Some(e) => match self.resolve_expression(scope, e) {
                        Ok(e2) => Some(e2),
                        Err(er) => {
                            return Err(er);
                        },
                    },
                    None => None,
                };
                scope.set_top(&d.name, VariableState::Initialized);
                Ok(Statement::VariableDecl(
                    Box::new(
                        statement::VariableDecl { id: d.id, name: d.name.clone(), expr: init2 },
                    ),
                ))
            },
            Statement::Block(b) => {
                scope.push_frame();
                let inner = self.resolve_statements(scope, &b.statements);
                scope.pop_frame();
                match inner {
                    Ok(ss2) => Ok(Statement::Block(
                        Box::new(statement::Block { id: b.id, statements: ss2 }),
                    )),
                    Err(er) => Err(er),
                }
            },
            Statement::If(i) => {
                let c2 = match self.resolve_expression(scope, &i.condition) {
                    Ok(c2) => c2,
                    Err(er) => {
                        return Err(er);
                    },
                };
                let t2 = match self.resolve_statement(scope, &i.then_branch) {
                    Ok(t2) => t2,
                    Err(er) => {
                        return Err(er);
                    },
                };
                let e2 = match &i.else_branch {
                    Some(eb) => match self.resolve_statement(scope, eb) {
                        Ok(e2) => Some(e2),
                        Err(er) => {
                            return Err(er);
                        },
                    },
                    None => None,
                };
                Ok(Statement::If(
                    Box::new(
                        statement::If {
                            id: i.id,
                            condition: c2,
                            then_branch: t2,
                            else_branch: e2,
                        },
                    ),
                ))
            },
            Statement::While(w) => {
                let c2 = match self.resolve_expression(scope, &w.condition) {
                    Ok(c2) => c2,
                    Err(er) => {
                        return Err(er);
                    },
                };
                let b2 = match self.resolve_statement(scope, &w.body) {
                    Ok(b2) => b2,
                    Err(er) => {
                        return Err(er);
                    },
                };
                Ok(Statement::While(
                    Box::new(statement::While { id: w.id, condition: c2, body: b2 }),
                ))
            },
            Statement::Function(f) => {
                let ghost sc_entry = scope@;
                scope.set_top(&f.name, VariableState::Initialized);
                proof {
                    assert(scope@ == scope_set(sc_entry, f.name@, VariableState::Initialized));
                }
                scope.push_frame();
                let ghost sc2_start = scope@;
                let ghost pv = f.params.deep_view();
                proof {
                    assert(sc2_start == scope_set(sc_entry, f.name@, VariableState::Initialized)
                        .push(Map::empty()));
                    assert(pv.skip(0int) =~= pv);
                }
                let np = f.params.len();
                let mut j: usize = 0;
                loop
                    invariant
                        scope.inv(),
                        j <= np,
                        np == f.params.len(),
                        scope@.len() == sc2_start.len(),
                        scope_bind(sc2_start, pv) == scope_bind(scope@, pv.skip(j as int)),
                    decreases np - j,
                {
                    if j >= np {
                        break;
                    }
                    proof {
                        assert(pv.skip(j as int)[0] == pv[j as int]);
                        assert(pv.skip(j as int).drop_first() =~= pv.skip(j as int + 1));
                    }
                    scope.set_top(&f.params[j], VariableState::Initialized);
                    j += 1;
                }
                proof {
                    assert(pv.skip(np as int) =~= Seq::<Seq<char>>::empty());
                    assert(scope_bind(scope@, Seq::<Seq<char>>::empty()) == scope@);
                    assert(scope@ == scope_bind(sc2_start, pv));
                }
                let ghost sc2 = scope_bind(sc2_start, pv);
                // The parameter level doubles as the body's block scope,
                // as the parameter frame does at run time.
                let body_res: Result<Statement, ResolveError> = match &*f.body {
                    Statement::Block(bb) => {
                        let ghost ssv = crate::ast::stmts_view(bb.statements@);
                        let inner = self.resolve_statements(scope, &bb.statements);
                        proof {
                            assert(resolve_stmts_s(sc2, ssv) == (RStmtsOut {
                                sc: scope@,
                                res: match inner {
                                    Ok(ss2) => Ok(crate::ast::stmts_view(ss2@)),
                                    Err(er) => Err(er@),
                                },
                            }));
                        }
                        match inner {
                            Ok(ss2) => Ok(Statement::Block(
                                Box::new(statement::Block { id: bb.id, statements: ss2 }),
                            )),
                            Err(er) => Err(er),
                        }
                    },
                    other => {
                        let inner = self.resolve_statement(scope, other);
                        proof {
                            assert(crate::ast::stmt_view(other) == crate::ast::stmt_view(&f.body));
                            assert(!(crate::ast::stmt_view(&f.body) is Block));
                            assert(resolve_stmt_s(sc2, crate::ast::stmt_view(&f.body)) == (RStmtOut {
                                sc: scope@,
                                res: rres_stmt(inner),
                            }));
                        }
                        inner
                    },
                };
                scope.pop_frame();
                let ghost o_spec = (match crate::ast::stmt_view(&f.body) {
                    StmtV::Block(ss) => {
                        let oz = resolve_stmts_s(sc2, ss);
                        RStmtOut {
                            sc: oz.sc,
                            res: match oz.res {
                                Ok(ss2) => Ok(StmtV::Block(ss2)),
                                Err(er) => Err(er),
                            },
                        }
                    },
                    _ => resolve_stmt_s(sc2, crate::ast::stmt_view(&f.body)),
                });
                proof {
                    assert(resolve_stmt_s(sc_entry, statement@) == (RStmtOut {
                        sc: o_spec.sc.drop_last(),
                        res: match o_spec.res {
                            Ok(b2) => Ok(StmtV::Function {
                                name: f.name@,
                                params: pv,
                                body: Box::new(b2),
                            }),
                            Err(er) => Err(er),
                        },
                    }));
                    assert(scope@ == o_spec.sc.drop_last());
                }
                match body_res {
                    Ok(b2) => {
                        let node = Statement::Function(
                            Box::new(
                                statement::Function {
                                    id: f.id,
                                    name: f.name.clone(),
                                    params: crate::ast::clone_names(&f.params),
                                    body: Box::new(b2),
                                },
                            ),
                        );
                        proof {
                            assert(o_spec.res == Ok::<StmtV, ResolveErrorV>(crate::ast::stmt_view(&b2)));
                            assert(node@ == (StmtV::Function {
                                name: f.name@,
                                params: pv,
                                body: Box::new(crate::ast::stmt_view(&b2)),
                            }));
                            assert(resolve_stmt_s(sc_entry, statement@) == (RStmtOut {
                                sc: scope@,
                                res: Ok(node@),
                            }));
                        }
                        Ok(node)
                    },
                    Err(er) => {
                        proof {
                            assert(o_spec.res == Err::<StmtV, ResolveErrorV>(er@));
                            assert(resolve_stmt_s(sc_entry, statement@) == (RStmtOut {
                                sc: scope@,
                                res: Err(er@),
                            }));
                        }
                        Err(er)
                    },
                }
            },
            Statement::Return(rst) => match &rst.value {
                Some(e) => match self.resolve_expression(scope, e) {
                    Ok(e2) => Ok(Statement::Return(
                        Box::new(statement::Return { id: rst.id, value: Some(e2) }),
                    )),
                    Err(er) => Err(er),
                },
                None => Ok(Statement::Return(
                    Box::new(statement::Return { id: rst.id, value: None }),
                )),
            },
        }
    }

    /// Resolves each statement in order, threading `scope`.
    #[verifier::loop_isolation(false)]
    fn resolve_statements(&mut self, scope: &mut Scope, stmts: &Vec<Statement>) -> (r: Result<
        Vec<Statement>,
        ResolveError,
    >)
        requires
            old(scope).inv(),
        ensures
            final(scope).inv(),
            final(scope)@.len() == old(scope)@.len(),
            resolve_stmts_s(old(scope)@, crate::ast::stmts_view(stmts@)) == (RStmtsOut {
                sc: final(scope)@,
                res: match r {
                    Ok(ss2) => Ok(crate::ast::stmts_view(ss2@)),
                    Err(er) => Err(er@),
                },
            }),
        decreases stmts,
    {
        let ghost ss = crate::ast::stmts_view(stmts@);
        proof {
            crate::ast::lemma_stmts_view_index(stmts@);
            assert(ss.skip(0int) =~= ss);
            let x = resolve_stmts_s(old(scope)@, ss);
            match x.res {
                Ok(vs) => {
                    assert(Seq::<StmtV>::empty() + vs =~= vs);
                },
                Err(_) => {},
            }
        }
        let mut out: Vec<Statement> = Vec::new();
        proof {
            assert(crate::ast::stmts_view(out@) =~= Seq::<StmtV>::empty());
        }
        let n = stmts.len();
        let mut i: usize = 0;
        loop
            invariant
                scope.inv(),
                i <= n,
                n == stmts.len(),
                out.len() == i,
                scope@.len() == old(scope)@.len(),
                ss.len() == n,
                forall|j: int| 0 <= j < n ==> ss[j] == crate::ast::stmt_view(&stmts@[j]),
                resolve_stmts_s(old(scope)@, ss) == rstmts_cont(
                    crate::ast::stmts_view(out@),
                    resolve_stmts_s(scope@, ss.skip(i as int)),
                ),
            decreases n - i,
        {
            if i >= n {
                break;
            }
            let ghost pre = scope@;
            let ghost acc = crate::ast::stmts_view(out@);
            proof {
                assert(ss.skip(i as int)[0] == ss[i as int]);
                assert(ss.skip(i as int).drop_first() =~= ss.skip(i as int + 1));
            }
            let s2 = match self.resolve_statement(scope, &stmts[i]) {
                Ok(s2) => s2,
                Err(er) => {
                    return Err(er);
                },
            };
            proof {
                let rest_after = resolve_stmts_s(scope@, ss.skip(i as int + 1));
                assert(resolve_stmts_s(pre, ss.skip(i as int)) == rstmts_cont(
                    seq![s2@],
                    rest_after,
                ));
                match rest_after.res {
                    Ok(vs) => {
                        assert(acc + (seq![s2@] + vs) =~= acc.push(s2@) + vs);
                    },
                    Err(_) => {},
                }
                assert(out@.push(s2).drop_last() =~= out@);
                assert(out@.push(s2).last() == s2);
                assert(crate::ast::stmts_view(out@.push(s2)) =~= acc.push(s2@));
            }
            out.push(s2);
            i += 1;
        }
        proof {
            assert(ss.skip(n as int) =~= Seq::<StmtV>::empty());
            assert(crate::ast::stmts_view(out@) + Seq::<StmtV>::empty() =~= crate::ast::stmts_view(
                out@,
            ));
        }
        Ok(out)
    }

    /// Resolves one expression against `scope`, exactly as
    /// [`resolve_expr_s`] does; the scope is read, never changed.
    #[verifier::rlimit(80)]
    #[verifier::loop_isolation(false)]
    fn resolve_expression(&mut self, scope: &Scope, expr: &Expr) -> (r: Result<Expr, ResolveError>)
        requires
            scope.inv(),
        ensures
            resolve_expr_s(scope@, expr@) == rres_expr(r),
        decreases expr,
    {
        match expr {
            Expr::Binary(b) => {
                let l2 = match self.resolve_expression(scope, &b.left) {
                    Ok(l2) => l2,
                    Err(er) => {
                        return Err(er);
                    },
                };
                let r2 = match self.resolve_expression(scope, &b.right) {
                    Ok(r2) => r2,
                    Err(er) => {
                        return Err(er);
                    },
                };
                Ok(Expr::Binary(
                    Box::new(
                        expr::Binary { id: b.id, left: l2, operator: b.operator, right: r2 },
                    ),
                ))
            },
            Expr::Grouping(g) => match self.resolve_expression(scope, &g.expr) {
                Ok(g2) => Ok(Expr::Grouping(Box::new(expr::Grouping { id: g.id, expr: g2 }))),
                Err(er) => Err(er),
            },
            Expr::Literal(l) => Ok(Expr::Literal(
                Box::new(expr::Literal { id: l.id, literal: clone_literal(&l.literal) }),
            )),
            Expr::Unary(u) => match self.resolve_expression(scope, &u.right) {
                Ok(r2) => Ok(Expr::Unary(
                    Box::new(expr::Unary { id: u.id, operator: u.operator, right: r2 }),
                )),
                Err(er) => Err(er),
            },
            Expr::Variable(v) => match scope.resolve(&v.name) {
                Some(d) => Ok(Expr::Variable(
                    Box::new(
                        expr::Variable { id: v.id, name: v.name.clone(), resolution: Some(d) },
                    ),
                )),
                None => Err(ResolveError::UndefinedVariable(v.name.clone())),
            },
            Expr::Assign(a) => {
                let d = match scope.resolve(&a.name) {
                    Some(d) => d,
                    None => {
                        return Err(ResolveError::UndefinedVariable(a.name.clone()));
                    },
                };
                match self.resolve_expression(scope, &a.value) {
                    Ok(v2) => Ok(Expr::Assign(
                        Box::new(
                            expr::Assign {
                                id: a.id,
                                name: a.name.clone(),
                                value: v2,
                                resolution: Some(d),
                            },
                        ),
                    )),
                    Err(er) => Err(er),
                }
            },
            Expr::Logical(l) => {
                let l2 = match self.resolve_expression(scope, &l.left) {
                    Ok(l2) => l2,
                    Err(er) => {
                        return Err(er);
                    },
                };
                let r2 = match self.resolve_expression(scope, &l.right) {
                    Ok(r2) => r2,
                    Err(er) => {
                        return Err(er);
                    },
                };
                Ok(Expr::Logical(
                    Box::new(
                        expr::Logical { id: l.id, left: l2, operator: l.operator, right: r2 },
                    ),
                ))
            },
            Expr::Call(c) => {
                let c2 = match self.resolve_expression(scope, &c.callee) {
                    Ok(c2) => c2,
                    Err(er) => {
                        return Err(er);
                    },
                };
                match self.resolve_expressions(scope, &c.arguments) {
                    Ok(a2) => Ok(Expr::Call(
                        Box::new(expr::Call { id: c.id, callee: c2, arguments: a2 }),
                    )),
                    Err(er) => Err(er),
                }
            },
        }
    }

    /// Resolves each expression in order.
    #[verifier::loop_isolation(false)]
    fn resolve_expressions(&mut self, scope: &Scope, exprs: &Vec<Expr>) -> (r: Result<
        Vec<Expr>,
        ResolveError,
    >)
        requires
            scope.inv(),
        ensures
            resolve_exprs_s(scope@, crate::ast::exprs_view(exprs@)) == (match r {
                Ok(es2) => Ok(crate::ast::exprs_view(es2@)),
                Err(er) => Err(er@),
            }),
        decreases exprs,
    {
        let ghost es = crate::ast::exprs_view(exprs@);
        proof {
            crate::ast::lemma_exprs_view_index(exprs@);
            assert(es.skip(0int) =~= es);
            match resolve_exprs_s(scope@, es) {
                Ok(vs) => {
                    assert(Seq::<ExprV>::empty() + vs =~= vs);
                },
                Err(_) => {},
            }
        }
        let mut out: Vec<Expr> = Vec::new();
        proof {
            assert(crate::ast::exprs_view(out@) =~= Seq::<ExprV>::empty());
        }
        let n = exprs.len();
        let mut i: usize = 0;
        loop
            invariant
                i <= n,
                n == exprs.len(),
                out.len() == i,
                es.len() == n,
                forall|j: int| 0 <= j < n ==> es[j] == crate::ast::expr_view(&exprs@[j]),
                resolve_exprs_s(scope@, es) == (match resolve_exprs_s(scope@, es.skip(i as int)) {
                    Ok(vs) => Ok(crate::ast::exprs_view(out@) + vs),
                    Err(er) => Err(er),
                }),
            decreases n - i,
        {
            if i >= n {
                break;
            }
            let ghost acc = crate::ast::exprs_view(out@);
            proof {
                assert(es.skip(i as int)[0] == es[i as int]);
                assert(es.skip(i as int).drop_first() =~= es.skip(i as int + 1));
            }
            let e2 = match self.resolve_expression(scope, &exprs[i]) {
                Ok(e2) => e2,
                Err(er) => {
                    return Err(er);
                },
            };
            proof {
                match resolve_exprs_s(scope@, es.skip(i as int + 1)) {
                    Ok(vs) => {
                        assert(acc + (seq![e2@] + vs) =~= acc.push(e2@) + vs);
                    },
                    Err(_) => {},
                }
                assert(out@.push(e2).drop_last() =~= out@);
                assert(out@.push(e2).last() == e2);
                assert(crate::ast::exprs_view(out@.push(e2)) =~= acc.push(e2@));
            }
            out.push(e2);
            i += 1;
        }
        proof {
            assert(es.skip(n as int) =~= Seq::<ExprV>::empty());
            assert(crate::ast::exprs_view(out@) + Seq::<ExprV>::empty() =~= crate::ast::exprs_view(
                out@,
            ));
        }
        Ok(out)
    }
}

// ---------------------------------------------------------------------------
// The resolver only annotates
// ---------------------------------------------------------------------------

/// The expression with every resolution annotation cleared.
pub open spec fn erase_expr(e: ExprV) -> ExprV
    decreases e,
{
    match e {
        ExprV::Binary { operator, left, right } => ExprV::Binary {
            operator,
            left: Box::new(erase_expr(*left)),
            right: Box::new(erase_expr(*right)),
        },
        ExprV::Grouping(g) => ExprV::Grouping(Box::new(erase_expr(*g))),
        ExprV::Lit(l) => ExprV::Lit(l),
        ExprV::Unary { operator, right } => ExprV::Unary {
            operator,
            right: Box::new(erase_expr(*right)),
        },
        ExprV::Variable { name, .. } => ExprV::Variable { name, resolution: None },
        ExprV::Assign { name, value, .. } => ExprV::Assign {
            name,
            resolution: None,
            value: Box::new(erase_expr(*value)),
        },
        ExprV::Logical { operator, left, right } => ExprV::Logical {
            operator,
            left: Box::new(erase_expr(*left)),
            right: Box::new(erase_expr(*right)),
        },
        ExprV::Call { callee, arguments } => ExprV::Call {
            callee: Box::new(erase_expr(*callee)),
            arguments: erase_exprs(arguments),
        },
    }
}

/// Erasure of each expression of a list.
pub open spec fn erase_exprs(es: Seq<ExprV>) -> Seq<ExprV>
    decreases es,
{
    if es.len() == 0 {
        Seq::empty()
    } else {
        seq![erase_expr(es[0])] + erase_exprs(es.drop_first())
    }
}

/// The statement with every resolution annotation cleared.
pub open spec fn erase_stmt(s: StmtV) -> StmtV
    decreases s,
{
    match s {
        StmtV::Expression(e) => StmtV::Expression(Box::new(erase_expr(*e))),
        StmtV::Print(e) => StmtV::Print(Box::new(erase_expr(*e))),
        StmtV::VariableDecl { name, init } => StmtV::VariableDecl {
            name,
            init: match init {
                Some(e) => Some(Box::new(erase_expr(*e))),
                None => None,
            },
        },
        StmtV::Block(ss) => StmtV::Block(erase_stmts(ss)),
        StmtV::If { condition, then_branch, else_branch } => StmtV::If {
            condition: Box::new(erase_expr(*condition)),
            then_branch: Box::new(erase_stmt(*then_branch)),
            else_branch: match else_branch {
                Some(e) => Some(Box::new(erase_stmt(*e))),
                None => None,
            },
        },
        StmtV::While { condition, body } => StmtV::While {
            condition: Box::new(erase_expr(*condition)),
            body: Box::new(erase_stmt(*body)),
        },
        StmtV::Function { name, params, body } => StmtV::Function {
            name,
            params,
            body: Box::new(erase_stmt(*body)),
        },
        StmtV::Return(value) => StmtV::Return(
            match value {
                Some(e) => Some(Box::new(erase_expr(*e))),
                None => None,
            },
        ),
    }
}

/// Erasure of each statement of a list.
pub open spec fn erase_stmts(ss: Seq<StmtV>) -> Seq<StmtV>
    decreases ss,
{
    if ss.len() == 0 {
        Seq::empty()
    } else {
        seq![erase_stmt(ss[0])] + erase_stmts(ss.drop_first())
    }
}

/// The resolver only annotates: up to the resolution annotations, the
/// expression it returns is the expression it was given.
pub proof fn lemma_resolve_expr_only_annotates(sc: ScopeV, e: ExprV)
    ensures
        resolve_expr_s(sc, e) matches Ok(e2) ==> erase_expr(e2) == erase_expr(e),
    decreases e,
{
    match e {
        ExprV::Binary { operator, left, right } => {
            lemma_resolve_expr_only_annotates(sc, *left);
            lemma_resolve_expr_only_annotates(sc, *right);
        },
        ExprV::Grouping(g) => {
            lemma_resolve_expr_only_annotates(sc, *g);
        },
        ExprV::Lit(_) => {},
        ExprV::Unary { right, .. } => {
            lemma_resolve_expr_only_annotates(sc, *right);
        },
        ExprV::Variable { .. } => {},
        ExprV::Assign { value, .. } => {
            lemma_resolve_expr_only_annotates(sc, *value);
        },
        ExprV::Logical { left, right, .. } => {
            lemma_resolve_expr_only_annotates(sc, *left);
            lemma_resolve_expr_only_annotates(sc, *right);
        },
        ExprV::Call { callee, arguments } => {
            lemma_resolve_expr_only_annotates(sc, *callee);
            lemma_resolve_exprs_only_annotate(sc, arguments);
        },
    }
}

/// The resolver only annotates, for a list of expressions.
pub proof fn lemma_resolve_exprs_only_annotate(sc: ScopeV, es: Seq<ExprV>)
    ensures
        resolve_exprs_s(sc, es) matches Ok(es2) ==> erase_exprs(es2) == erase_exprs(es),
    decreases es,
{
    if es.len() > 0 {
        lemma_resolve_expr_only_annotates(sc, es[0]);
        lemma_resolve_exprs_only_annotate(sc, es.drop_first());
        match resolve_expr_s(sc, es[0]) {
            Ok(e2) => {
                match resolve_exprs_s(sc, es.drop_first()) {
                    Ok(rest2) => {
                        let out = seq![e2] + rest2;
                        assert(out[0] == e2);
                        assert(out.drop_first() =~= rest2);
                        assert(erase_exprs(out) == seq![erase_expr(e2)] + erase_exprs(rest2));
                    },
                    Err(_) => {},
                }
            },
            Err(_) => {},
        }
    }
}

/// The resolver only annotates: up to the resolution annotations, the
/// statement it returns is the statement it was given — bindings gain
/// distances, nothing else changes.
pub proof fn lemma_resolve_stmt_only_annotates(sc: ScopeV, s: StmtV)
    ensures
        resolve_stmt_s(sc, s).res matches Ok(s2) ==> erase_stmt(s2) == erase_stmt(s),
    decreases s,
{
    match s {
        StmtV::Expression(e) => {
            lemma_resolve_expr_only_annotates(sc, *e);
        },
        StmtV::Print(e) => {
            lemma_resolve_expr_only_annotates(sc, *e);
        },
        StmtV::VariableDecl { name, init } => {
            if !sc.last().contains_key(name) {
                let sc1 = scope_set(sc, name, VariableState::Declared);
                match init {
                    Some(e) => {
                        lemma_resolve_expr_only_annotates(sc1, *e);
                    },
                    None => {},
                }
            }
        },
        StmtV::Block(ss) => {
            lemma_resolve_stmts_only_annotate(sc.push(Map::empty()), ss);
        },
        StmtV::If { condition, then_branch, else_branch } => {
            lemma_resolve_expr_only_annotates(sc, *condition);
            let o1 = resolve_stmt_s(sc, *then_branch);
            lemma_resolve_stmt_only_annotates(sc, *then_branch);
            match else_branch {
                Some(eb) => {
                    lemma_resolve_stmt_only_annotates(o1.sc, *eb);
                },
                None => {},
            }
        },
        StmtV::While { condition, body } => {
            lemma_resolve_expr_only_annotates(sc, *condition);
            lemma_resolve_stmt_only_annotates(sc, *body);
        },
        StmtV::Function { name, params, body } => {
            let sc1 = scope_set(sc, name, VariableState::Initialized);
            let sc2 = scope_bind(sc1.push(Map::empty()), params);
            match *body {
                StmtV::Block(ss) => {
                    lemma_resolve_stmts_only_annotate(sc2, ss);
                    let oz = resolve_stmts_s(sc2, ss);
                    match oz.res {
                        Ok(ss2) => {
                            assert(erase_stmt(StmtV::Block(ss2)) == StmtV::Block(
                                erase_stmts(ss2),
                            ));
                            assert(erase_stmt(*body) == StmtV::Block(erase_stmts(ss)));
                        },
                        Err(_) => {},
                    }
                },
                _ => {
                    lemma_resolve_stmt_only_annotates(sc2, *body);
                },
            }
        },
        StmtV::Return(value) => {
            match value {
                Some(e) => {
                    lemma_resolve_expr_only_annotates(sc, *e);
                },
                None => {},
            }
        },
    }
}

/// The resolver only annotates, for a list of statements.
pub proof fn lemma_resolve_stmts_only_annotate(sc: ScopeV, ss: Seq<StmtV>)
    ensures
        resolve_stmts_s(sc, ss).res matches Ok(ss2) ==> erase_stmts(ss2) == erase_stmts(ss),
    decreases ss,
{
    if ss.len() > 0 {
        lemma_resolve_stmt_only_annotates(sc, ss[0]);
        let o = resolve_stmt_s(sc, ss[0]);
        match o.res {
            Ok(s2) => {
                lemma_resolve_stmts_only_annotate(o.sc, ss.drop_first());
                match resolve_stmts_s(o.sc, ss.drop_first()).res {
                    Ok(rest2) => {
                        let out = seq![s2] + rest2;
                        assert(out[0] == s2);
                        assert(out.drop_first() =~= rest2);
                        assert(erase_stmts(out) == seq![erase_stmt(s2)] + erase_stmts(rest2));
                    },
                    Err(_) => {},
                }
            },
            Err(_) => {},
        }
    }
}

} // verus!
