//! The syntax tree consumed by the resolver and the evaluator.
//!
//! Statements and expressions are closed tagged unions over per-kind node
//! structs; every node carries a numeric identifier assigned by the parser.
//! The [`view`] module gives each syntax category a mathematical view, which
//! is what contracts speak about.

pub mod expr;
pub mod statement;
pub mod view;

use vstd::prelude::*;

use view::{ExprV, LitV, StmtV};

verus! {

broadcast use vstd::std_specs::vec::group_vec_axioms;

/// Owning pointer used for tree children.
pub type Ptr<T> = Box<T>;

/// Common interface of syntax tree nodes: every node has an identifier,
/// unique within the tree that the parser produced.
pub trait SyntaxNode {
    fn id(&self) -> usize;
}

/// A literal value appearing in the source text.
#[derive(Debug, Clone)]
pub enum Literal {
    Number(i64),
    String(String),
    Boolean(bool),
    Nil,
}

/// A statement.
#[derive(Debug)]
pub enum Statement {
    Expression(Ptr<statement::Expression>),
    Print(Ptr<statement::Print>),
    VariableDecl(Ptr<statement::VariableDecl>),
    Block(Ptr<statement::Block>),
    If(Ptr<statement::If>),
    While(Ptr<statement::While>),
    Function(Ptr<statement::Function>),
    Return(Ptr<statement::Return>),
}

/// An expression.
#[derive(Debug)]
pub enum Expr {
    Binary(Ptr<expr::Binary>),
    Grouping(Ptr<expr::Grouping>),
    Literal(Ptr<expr::Literal>),
    Unary(Ptr<expr::Unary>),
    Variable(Ptr<expr::Variable>),
    Assign(Ptr<expr::Assign>),
    Logical(Ptr<expr::Logical>),
    Call(Ptr<expr::Call>),
}

impl View for Literal {
    type V = LitV;

    open spec fn view(&self) -> LitV {
        match self {
            Literal::Number(n) => LitV::Number(*n),
            Literal::String(s) => LitV::Str(s@),
            Literal::Boolean(b) => LitV::Boolean(*b),
            Literal::Nil => LitV::Nil,
        }
    }
}

/// View of an expression; recursive companions of the `View` impls below.
pub open spec fn expr_view(e: &Expr) -> ExprV
    decreases e,
{
    match e {
        Expr::Binary(b) => ExprV::Binary {
            operator: b.operator,
            left: Box::new(expr_view(&b.left)),
            right: Box::new(expr_view(&b.right)),
        },
        Expr::Grouping(g) => ExprV::Grouping(Box::new(expr_view(&g.expr))),
        Expr::Literal(l) => ExprV::Lit(l.literal@),
        Expr::Unary(u) => ExprV::Unary {
            operator: u.operator,
            right: Box::new(expr_view(&u.right)),
        },
        Expr::Variable(v) => ExprV::Variable {
            name: v.name@,
            resolution: match v.resolution {
                Some(d) => Some(d as int),
                None => None,
            },
        },
        Expr::Assign(a) => ExprV::Assign {
            name: a.name@,
            resolution: match a.resolution {
                Some(d) => Some(d as int),
                None => None,
            },
            value: Box::new(expr_view(&a.value)),
        },
        Expr::Logical(l) => ExprV::Logical {
            operator: l.operator,
            left: Box::new(expr_view(&l.left)),
            right: Box::new(expr_view(&l.right)),
        },
        Expr::Call(c) => ExprV::Call {
            callee: Box::new(expr_view(&c.callee)),
            arguments: exprs_view(c.arguments@),
        },
    }
}

/// View of a sequence of expressions.
pub open spec fn exprs_view(es: Seq<Expr>) -> Seq<ExprV>
    decreases es,
{
    if es.len() == 0 {
        Seq::empty()
    } else {
        exprs_view(es.drop_last()).push(expr_view(&es.last()))
    }
}

/// View of a statement.
pub open spec fn stmt_view(s: &Statement) -> StmtV
    decreases s,
{
    match s {
        Statement::Expression(e) => StmtV::Expression(Box::new(expr_view(&e.expr))),
        Statement::Print(p) => StmtV::Print(Box::new(expr_view(&p.expr))),
        Statement::VariableDecl(d) => StmtV::VariableDecl {
            name: d.name@,
            init: match &d.expr {
                Some(e) => Some(Box::new(expr_view(e))),
                None => None,
            },
        },
        Statement::Block(b) => StmtV::Block(stmts_view(b.statements@)),
        Statement::If(i) => StmtV::If {
            condition: Box::new(expr_view(&i.condition)),
            then_branch: Box::new(stmt_view(&i.then_branch)),
            else_branch: match &i.else_branch {
                Some(e) => Some(Box::new(stmt_view(e))),
                None => None,
            },
        },
        Statement::While(w) => StmtV::While {
            condition: Box::new(expr_view(&w.condition)),
            body: Box::new(stmt_view(&w.body)),
        },
        Statement::Function(f) => StmtV::Function {
            name: f.name@,
            params: f.params.deep_view(),
            body: Box::new(stmt_view(&f.body)),
        },
        Statement::Return(r) => StmtV::Return(
            match &r.value {
                Some(e) => Some(Box::new(expr_view(e))),
                None => None,
            },
        ),
    }
}

/// View of a sequence of statements.
pub open spec fn stmts_view(ss: Seq<Statement>) -> Seq<StmtV>
    decreases ss,
{
    if ss.len() == 0 {
        Seq::empty()
    } else {
        stmts_view(ss.drop_last()).push(stmt_view(&ss.last()))
    }
}

/// The view of a statement sequence has the same length, and views each
/// element.
pub proof fn lemma_stmts_view_index(ss: Seq<Statement>)
    ensures
        stmts_view(ss).len() == ss.len(),
        forall|i: int| 0 <= i < ss.len() ==> stmts_view(ss)[i] == stmt_view(&ss[i]),
    decreases ss.len(),
{
    if ss.len() > 0 {
        lemma_stmts_view_index(ss.drop_last());
    }
}

/// The view of an expression sequence has the same length, and views each
/// element.
pub proof fn lemma_exprs_view_index(es: Seq<Expr>)
    ensures
        exprs_view(es).len() == es.len(),
        forall|i: int| 0 <= i < es.len() ==> exprs_view(es)[i] == expr_view(&es[i]),
    decreases es.len(),
{
    if es.len() > 0 {
        lemma_exprs_view_index(es.drop_last());
    }
}

/// Copies a literal; the copy has the same view.
pub fn clone_literal(l: &Literal) -> (r: Literal)
    ensures
        r@ == l@,
{
    match l {
        Literal::Number(n) => Literal::Number(*n),
        Literal::String(s) => Literal::String(s.clone()),
        Literal::Boolean(b) => Literal::Boolean(*b),
        Literal::Nil => Literal::Nil,
    }
}

/// Copies a list of names; the copy has the same view.
pub fn clone_names(v: &Vec<String>) -> (r: Vec<String>)
    ensures
        r.deep_view() == v.deep_view(),
{
    let mut r: Vec<String> = Vec::new();
    let n = v.len();
    let mut i: usize = 0;
    while i < n
        invariant
            i <= n,
            n == v.len(),
            r.len() == i,
            forall|j: int| 0 <= j < i ==> r.deep_view()[j] == v.deep_view()[j],
        decreases n - i,
    {
        r.push(v[i].clone());
        i += 1;
    }
    proof {
        assert(r.deep_view() =~= v.deep_view());
    }
    r
}

/// Copies a list of expressions; the copy has the same view.
pub fn clone_exprs(v: &Vec<Expr>) -> (r: Vec<Expr>)
    ensures
        exprs_view(r@) == exprs_view(v@),
    decreases v,
{
    let mut r: Vec<Expr> = Vec::new();
    let n = v.len();
    let mut i: usize = 0;
    while i < n
        invariant
            i <= n,
            n == v.len(),
            r.len() == i,
            forall|j: int| 0 <= j < i ==> expr_view(&r@[j]) == expr_view(&v@[j]),
        decreases n - i,
    {
        r.push(clone_expr(&v[i]));
        i += 1;
    }
    proof {
        lemma_exprs_view_index(r@);
        lemma_exprs_view_index(v@);
        assert(exprs_view(r@) =~= exprs_view(v@));
    }
    r
}

/// Copies a list of statements; the copy has the same view.
pub fn clone_stmts(v: &Vec<Statement>) -> (r: Vec<Statement>)
    ensures
        stmts_view(r@) == stmts_view(v@),
    decreases v,
{
    let mut r: Vec<Statement> = Vec::new();
    let n = v.len();
    let mut i: usize = 0;
    while i < n
        invariant
            i <= n,
            n == v.len(),
            r.len() == i,
            forall|j: int| 0 <= j < i ==> stmt_view(&r@[j]) == stmt_view(&v@[j]),
        decreases n - i,
    {
        r.push(clone_stmt(&v[i]));
        i += 1;
    }
    proof {
        lemma_stmts_view_index(r@);
        lemma_stmts_view_index(v@);
        assert(stmts_view(r@) =~= stmts_view(v@));
    }
    r
}

/// Copies an expression tree; the copy has the same view.
pub fn clone_expr(e: &Expr) -> (r: Expr)
    ensures
        r@ == e@,
    decreases e,
{
    match e {
        Expr::Binary(b) => Expr::Binary(
            Box::new(
                expr::Binary {
                    id: b.id,
                    left: clone_expr(&b.left),
                    operator: b.operator,
                    right: clone_expr(&b.right),
                },
            ),
        ),
        Expr::Grouping(g) => Expr::Grouping(
            Box::new(expr::Grouping { id: g.id, expr: clone_expr(&g.expr) }),
        ),
        Expr::Literal(l) => Expr::Literal(
            Box::new(expr::Literal { id: l.id, literal: clone_literal(&l.literal) }),
        ),
        Expr::Unary(u) => Expr::Unary(
            Box::new(expr::Unary { id: u.id, operator: u.operator, right: clone_expr(&u.right) }),
        ),
        Expr::Variable(v) => Expr::Variable(
            Box::new(
                expr::Variable { id: v.id, name: v.name.clone(), resolution: v.resolution },
            ),
        ),
        Expr::Assign(a) => Expr::Assign(
            Box::new(
                expr::Assign {
                    id: a.id,
                    name: a.name.clone(),
                    value: clone_expr(&a.value),
                    resolution: a.resolution,
                },
            ),
        ),
        Expr::Logical(l) => Expr::Logical(
            Box::new(
                expr::Logical {
                    id: l.id,
                    left: clone_expr(&l.left),
                    operator: l.operator,
                    right: clone_expr(&l.right),
                },
            ),
        ),
        Expr::Call(c) => Expr::Call(
            Box::new(
                expr::Call {
                    id: c.id,
                    callee: clone_expr(&c.callee),
                    arguments: clone_exprs(&c.arguments),
                },
            ),
        ),
    }
}

/// Copies a statement tree; the copy has the same view.
pub fn clone_stmt(s: &Statement) -> (r: Statement)
    ensures
        r@ == s@,
    decreases s,
{
    match s {
        Statement::Expression(e) => Statement::Expression(
            Box::new(statement::Expression { id: e.id, expr: clone_expr(&e.expr) }),
        ),
        Statement::Print(p) => Statement::Print(
            Box::new(statement::Print { id: p.id, expr: clone_expr(&p.expr) }),
        ),
        Statement::VariableDecl(d) => Statement::VariableDecl(
            Box::new(
                statement::VariableDecl {
                    id: d.id,
                    name: d.name.clone(),
                    expr: match &d.expr {
                        Some(e) => Some(clone_expr(e)),
                        None => None,
                    },
                },
            ),
        ),
        Statement::Block(b) => Statement::Block(
            Box::new(statement::Block { id: b.id, statements: clone_stmts(&b.statements) }),
        ),
        Statement::If(i) => Statement::If(
            Box::new(
                statement::If {
                    id: i.id,
                    condition: clone_expr(&i.condition),
                    then_branch: clone_stmt(&i.then_branch),
                    else_branch: match &i.else_branch {
                        Some(e) => Some(clone_stmt(e)),
                        None => None,
                    },
                },
            ),
        ),
        Statement::While(w) => Statement::While(
            Box::new(
                statement::While {
                    id: w.id,
                    condition: clone_expr(&w.condition),
                    body: clone_stmt(&w.body),
                },
            ),
        ),
        Statement::Function(f) => Statement::Function(
            Box::new(
                statement::Function {
                    id: f.id,
                    name: f.name.clone(),
                    params: clone_names(&f.params),
                    body: Box::new(clone_stmt(&f.body)),
                },
            ),
        ),
        Statement::Return(r) => Statement::Return(
            Box::new(
                statement::Return {
                    id: r.id,
                    value: match &r.value {
                        Some(e) => Some(clone_expr(e)),
                        None => None,
                    },
                },
            ),
        ),
    }
}

impl View for Expr {
    type V = ExprV;

    open spec fn view(&self) -> ExprV {
        expr_view(self)
    }
}

impl View for Statement {
    type V = StmtV;

    open spec fn view(&self) -> StmtV {
        stmt_view(self)
    }
}

} // verus!
