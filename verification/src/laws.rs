//! Laws of the environment chain and of evaluation, proved once and for
//! all over the abstract state. The executable operations are tied to the
//! same spec functions by their own contracts, so these laws carry over to
//! every run of the interpreter.

use vstd::prelude::*;

use crate::ast::view::ExprV;
use crate::semantics::{assign_chain, define_in, eval_expr_s, lookup_chain, wf_state, StateV};
use crate::value::ValueV;

verus! {

/// The chain from `child` reaches `anc` without passing a binding of
/// `name`: every frame on the way, `anc` excluded, does not bind `name`
/// itself.
pub open spec fn unshadowed_to(st: StateV, child: int, anc: int, name: Seq<char>) -> bool
    decreases child,
{
    if child == anc {
        true
    } else if 0 <= child < st.envs.len() {
        &&& !st.envs[child].vars.contains_key(name)
        &&& (match st.envs[child].parent {
            Some(p) => 0 <= p < child && unshadowed_to(st, p, anc, name),
            None => false,
        })
    } else {
        false
    }
}

/// Defining a binding and reading it back from the same frame gives the
/// defined value, whatever the chain looks like.
pub proof fn lemma_get_after_define(st: StateV, env: int, name: Seq<char>, v: ValueV)
    requires
        0 <= env < st.envs.len(),
    ensures
        lookup_chain(define_in(st, env, name, v), env, name) == Some(v),
{
}

/// Resolution from a frame whose chain reaches `anc` without shadowing
/// gives whatever resolution from `anc` gives; in particular, a name bound
/// in the ancestor resolves to the ancestor's value.
pub proof fn lemma_get_in_ancestor(st: StateV, child: int, anc: int, name: Seq<char>)
    requires
        0 <= child < st.envs.len(),
        0 <= anc < st.envs.len(),
        unshadowed_to(st, child, anc, name),
    ensures
        lookup_chain(st, child, name) == lookup_chain(st, anc, name),
        st.envs[anc].vars.contains_key(name) ==> lookup_chain(st, child, name) == Some(
            st.envs[anc].vars[name],
        ),
    decreases child,
{
    if child != anc {
        match st.envs[child].parent {
            Some(p) => {
                lemma_get_in_ancestor(st, p, anc, name);
            },
            None => {},
        }
    }
}

/// Shadowing: defining a binding in a later frame leaves every earlier
/// frame untouched, and resolution from any earlier frame is unchanged for
/// every name — an ancestor's bindings cannot be altered by a definition
/// in a descendant.
pub proof fn lemma_shadowing_preserves_ancestor(
    st: StateV,
    child: int,
    anc: int,
    name: Seq<char>,
    v: ValueV,
    m: Seq<char>,
)
    requires
        wf_state(st),
        0 <= anc < child < st.envs.len(),
    ensures
        define_in(st, child, name, v).envs[anc] == st.envs[anc],
        lookup_chain(define_in(st, child, name, v), anc, m) == lookup_chain(st, anc, m),
    decreases anc,
{
    let st2 = define_in(st, child, name, v);
    assert(crate::semantics::wf_frame(st, anc));
    if !st.envs[anc].vars.contains_key(m) {
        match st.envs[anc].parent {
            Some(p) => {
                if 0 <= p < anc {
                    lemma_shadowing_preserves_ancestor(st, child, p, name, v, m);
                }
            },
            None => {},
        }
    }
}

/// Assignment walks the same chain as resolution: when the chain from
/// `child` reaches `anc` without shadowing and the ancestor binds the
/// name, the assignment overwrites exactly the ancestor's binding.
pub proof fn lemma_assign_reaches_ancestor(
    st: StateV,
    child: int,
    anc: int,
    name: Seq<char>,
    v: ValueV,
)
    requires
        0 <= child < st.envs.len(),
        0 <= anc < st.envs.len(),
        unshadowed_to(st, child, anc, name),
        st.envs[anc].vars.contains_key(name),
    ensures
        assign_chain(st, child, name, v) == Some(define_in(st, anc, name, v)),
    decreases child,
{
    if child != anc {
        match st.envs[child].parent {
            Some(p) => {
                lemma_assign_reaches_ancestor(st, p, anc, name, v);
            },
            None => {},
        }
    }
}

/// An unshadowed chain stays unshadowed when the ancestor's own frame
/// changes: the frames on the way are not the ancestor.
pub proof fn lemma_unshadowed_after_define(
    st: StateV,
    child: int,
    anc: int,
    name: Seq<char>,
    v: ValueV,
)
    requires
        unshadowed_to(st, child, anc, name),
        0 <= anc < st.envs.len(),
        child < st.envs.len(),
    ensures
        unshadowed_to(define_in(st, anc, name, v), child, anc, name),
    decreases child,
{
    if child != anc {
        match st.envs[child].parent {
            Some(p) => {
                lemma_unshadowed_after_define(st, p, anc, name, v);
            },
            None => {},
        }
    }
}

/// The closure mutation property: assigning through one chain to a name
/// bound only in a shared ancestor mutates the ancestor's binding, and the
/// new value is observable through every other chain that reaches the same
/// ancestor unshadowed.
pub proof fn lemma_assign_visible_through_sharing(
    st: StateV,
    child: int,
    other: int,
    anc: int,
    name: Seq<char>,
    v: ValueV,
)
    requires
        0 <= child < st.envs.len(),
        0 <= other < st.envs.len(),
        0 <= anc < st.envs.len(),
        unshadowed_to(st, child, anc, name),
        unshadowed_to(st, other, anc, name),
        st.envs[anc].vars.contains_key(name),
    ensures
        assign_chain(st, child, name, v) matches Some(st2) && lookup_chain(st2, other, name)
            == Some(v),
{
    lemma_assign_reaches_ancestor(st, child, anc, name, v);
    let st2 = define_in(st, anc, name, v);
    lemma_unshadowed_after_define(st, other, anc, name, v);
    lemma_get_in_ancestor(st2, other, anc, name);
}

/// An expression is pure when it contains no assignment and no call: it
/// can neither write a binding nor run a function body (whose statements
/// could write or print).
pub open spec fn pure_expr(e: ExprV) -> bool
    decreases e,
{
    match e {
        ExprV::Binary { left, right, .. } => pure_expr(*left) && pure_expr(*right),
        ExprV::Grouping(g) => pure_expr(*g),
        ExprV::Lit(_) => true,
        ExprV::Unary { right, .. } => pure_expr(*right),
        ExprV::Variable { .. } => true,
        ExprV::Assign { .. } => false,
        ExprV::Logical { left, right, .. } => pure_expr(*left) && pure_expr(*right),
        ExprV::Call { .. } => false,
    }
}

/// Evaluating a pure expression leaves the state exactly as it was.
pub proof fn lemma_pure_expr_preserves_state(st: StateV, env: int, e: ExprV, fuel: nat)
    requires
        pure_expr(e),
    ensures
        eval_expr_s(st, env, e, fuel).st == st,
    decreases fuel, e,
{
    if fuel > 0 {
        let f1: nat = (fuel - 1) as nat;
        match e {
            ExprV::Binary { left, right, .. } => {
                lemma_pure_expr_preserves_state(st, env, *left, f1);
                let lo = eval_expr_s(st, env, *left, f1);
                lemma_pure_expr_preserves_state(lo.st, env, *right, f1);
            },
            ExprV::Grouping(g) => {
                lemma_pure_expr_preserves_state(st, env, *g, f1);
            },
            ExprV::Unary { right, .. } => {
                lemma_pure_expr_preserves_state(st, env, *right, f1);
            },
            ExprV::Logical { left, right, .. } => {
                lemma_pure_expr_preserves_state(st, env, *left, f1);
                let lo = eval_expr_s(st, env, *left, f1);
                lemma_pure_expr_preserves_state(lo.st, env, *right, f1);
            },
            _ => {},
        }
    }
}

/// Idempotence: re-evaluating a pure expression against an unmodified
/// environment yields an identical state and an identical result both
/// times. (An expression containing a call is excluded: the called
/// function's body may assign — a stateful counter returns a different
/// value on its second call.)
pub proof fn lemma_pure_expr_idempotent(st: StateV, env: int, e: ExprV, fuel: nat)
    requires
        pure_expr(e),
    ensures
        ({
            let first = eval_expr_s(st, env, e, fuel);
            let second = eval_expr_s(first.st, env, e, fuel);
            first.st == st && second == first
        }),
{
    lemma_pure_expr_preserves_state(st, env, e, fuel);
}

} // verus!
