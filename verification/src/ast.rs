//! The abstract syntax tree: expressions and statements, as the parser builds
//! them and the evaluator walks them.
//!
//! Each type has a view, [`ExprView`] or [`StmtView`], in which texts are
//! sequences of characters and lists are sequences. The contracts of the
//! parser and of the evaluator speak of these views.

use crate::view::views;
use vstd::prelude::*;

verus! {

/// A construct that yields a value.
#[derive(Debug, PartialEq)]
pub enum Expr {
    Number(i64),
    Bool(bool),
    Str(String),
    Add(Box<Expr>, Box<Expr>),
    Var(String),
    Call(String, Vec<Expr>),
    Block(Vec<Stmt>),
    StructInit(String, Vec<(String, Expr)>),
    FieldAccess(Box<Expr>, String),
    If { cond: Box<Expr>, then_branch: Box<Expr>, else_branch: Option<Box<Expr>> },
    For { var: String, start: Box<Expr>, end: Box<Expr>, body: Box<Expr> },
}

/// A statement.
#[derive(Debug, PartialEq)]
pub enum Stmt {
    Expr(Expr),
    FuncDef { name: String, params: Vec<String>, body: Box<Expr> },
    StructDef { name: String, fields: Vec<String> },
    Let { name: String, value: Expr, mutable: bool, ty: Option<String> },
    Print(Box<Expr>),
    Import(String),
    Error(String),
}

/// The mathematical value of an [`Expr`].
pub enum ExprView {
    Number(i64),
    Bool(bool),
    Str(Seq<char>),
    Add(Box<ExprView>, Box<ExprView>),
    Var(Seq<char>),
    Call(Seq<char>, Seq<ExprView>),
    Block(Seq<StmtView>),
    StructInit(Seq<char>, Seq<(Seq<char>, ExprView)>),
    FieldAccess(Box<ExprView>, Seq<char>),
    If { cond: Box<ExprView>, then_branch: Box<ExprView>, else_branch: Option<Box<ExprView>> },
    For { var: Seq<char>, start: Box<ExprView>, end: Box<ExprView>, body: Box<ExprView> },
}

/// The mathematical value of a [`Stmt`].
pub enum StmtView {
    Expr(ExprView),
    FuncDef { name: Seq<char>, params: Seq<Seq<char>>, body: Box<ExprView> },
    StructDef { name: Seq<char>, fields: Seq<Seq<char>> },
    Let { name: Seq<char>, value: ExprView, mutable: bool, ty: Option<Seq<char>> },
    Print(Box<ExprView>),
    Import(Seq<char>),
    Error(Seq<char>),
}

/// The view of an expression, part by part.
pub open spec fn expr_view(e: Expr) -> ExprView
    decreases e,
{
    match e {
        Expr::Number(n) => ExprView::Number(n),
        Expr::Bool(b) => ExprView::Bool(b),
        Expr::Str(s) => ExprView::Str(s@),
        Expr::Add(l, r) => ExprView::Add(Box::new(expr_view(*l)), Box::new(expr_view(*r))),
        Expr::Var(name) => ExprView::Var(name@),
        Expr::Call(name, args) => ExprView::Call(
            name@,
            Seq::new(
                args@.len(),
                |i: int|
                    if 0 <= i < args@.len() {
                        expr_view(args@[i])
                    } else {
                        arbitrary()
                    },
            ),
        ),
        Expr::Block(stmts) => ExprView::Block(
            Seq::new(
                stmts@.len(),
                |i: int|
                    if 0 <= i < stmts@.len() {
                        stmt_view(stmts@[i])
                    } else {
                        arbitrary()
                    },
            ),
        ),
        Expr::StructInit(name, fields) => ExprView::StructInit(
            name@,
            Seq::new(
                fields@.len(),
                |i: int|
                    if 0 <= i < fields@.len() {
                        (fields@[i].0@, expr_view(fields@[i].1))
                    } else {
                        arbitrary()
                    },
            ),
        ),
        Expr::FieldAccess(base, field) => ExprView::FieldAccess(
            Box::new(expr_view(*base)),
            field@,
        ),
        Expr::If { cond, then_branch, else_branch } => ExprView::If {
            cond: Box::new(expr_view(*cond)),
            then_branch: Box::new(expr_view(*then_branch)),
            else_branch: match else_branch {
                Some(b) => Some(Box::new(expr_view(*b))),
                None => None,
            },
        },
        Expr::For { var, start, end, body } => ExprView::For {
            var: var@,
            start: Box::new(expr_view(*start)),
            end: Box::new(expr_view(*end)),
            body: Box::new(expr_view(*body)),
        },
    }
}

/// The view of a statement, part by part.
pub open spec fn stmt_view(s: Stmt) -> StmtView
    decreases s,
{
    match s {
        Stmt::Expr(e) => StmtView::Expr(expr_view(e)),
        Stmt::FuncDef { name, params, body } => StmtView::FuncDef {
            name: name@,
            params: views(params@),
            body: Box::new(expr_view(*body)),
        },
        Stmt::StructDef { name, fields } => StmtView::StructDef {
            name: name@,
            fields: views(fields@),
        },
        Stmt::Let { name, value, mutable, ty } => StmtView::Let {
            name: name@,
            value: expr_view(value),
            mutable,
            ty: match ty {
                Some(t) => Some(t@),
                None => None,
            },
        },
        Stmt::Print(e) => StmtView::Print(Box::new(expr_view(*e))),
        Stmt::Import(name) => StmtView::Import(name@),
        Stmt::Error(message) => StmtView::Error(message@),
    }
}

impl View for Expr {
    type V = ExprView;

    open spec fn view(&self) -> ExprView {
        expr_view(*self)
    }
}

impl View for Stmt {
    type V = StmtView;

    open spec fn view(&self) -> StmtView {
        stmt_view(*self)
    }
}

/// The view of a call's arguments is the list of their views.
pub proof fn lemma_call_view(name: String, args: Vec<Expr>)
    ensures
        Expr::Call(name, args)@ == ExprView::Call(name@, views(args@)),
{
    assert(Expr::Call(name, args)@->Call_1 =~= views(args@));
}

/// The view of a block is the list of its statements' views.
pub proof fn lemma_block_view(stmts: Vec<Stmt>)
    ensures
        Expr::Block(stmts)@ == ExprView::Block(views(stmts@)),
{
    assert(Expr::Block(stmts)@->Block_0 =~= views(stmts@));
}

/// A copy of a list of texts.
pub fn clone_texts(texts: &Vec<String>) -> (r: Vec<String>)
    ensures
        views(r@) == views(texts@),
{
    let mut r: Vec<String> = Vec::new();
    let mut i: usize = 0;
    while i < texts.len()
        invariant
            i <= texts.len(),
            r@.len() == i,
            forall|k: int| 0 <= k < i ==> r@[k]@ == texts@[k]@,
        decreases texts.len() - i,
    {
        r.push(texts[i].clone());
        i += 1;
    }
    r
}

fn clone_exprs(exprs: &Vec<Expr>) -> (r: Vec<Expr>)
    ensures
        views(r@) == views(exprs@),
    decreases exprs,
{
    let mut r: Vec<Expr> = Vec::new();
    let mut i: usize = 0;
    while i < exprs.len()
        invariant
            i <= exprs.len(),
            r@.len() == i,
            forall|k: int| 0 <= k < i ==> r@[k]@ == exprs@[k]@,
        decreases exprs.len() - i,
    {
        r.push(exprs[i].clone());
        i += 1;
    }
    r
}

fn clone_stmts(stmts: &Vec<Stmt>) -> (r: Vec<Stmt>)
    ensures
        views(r@) == views(stmts@),
    decreases stmts,
{
    let mut r: Vec<Stmt> = Vec::new();
    let mut i: usize = 0;
    while i < stmts.len()
        invariant
            i <= stmts.len(),
            r@.len() == i,
            forall|k: int| 0 <= k < i ==> r@[k]@ == stmts@[k]@,
        decreases stmts.len() - i,
    {
        r.push(stmts[i].clone());
        i += 1;
    }
    r
}

fn clone_fields(fields: &Vec<(String, Expr)>) -> (r: Vec<(String, Expr)>)
    ensures
        r@.len() == fields@.len(),
        forall|k: int| 0 <= k < r@.len() ==> r@[k].0@ == fields@[k].0@ && r@[k].1@ == fields@[k].1@,
    decreases fields,
{
    let mut r: Vec<(String, Expr)> = Vec::new();
    let mut i: usize = 0;
    while i < fields.len()
        invariant
            i <= fields.len(),
            r@.len() == i,
            forall|k: int| 0 <= k < i ==> r@[k].0@ == fields@[k].0@ && r@[k].1@ == fields@[k].1@,
        decreases fields.len() - i,
    {
        r.push((fields[i].0.clone(), fields[i].1.clone()));
        i += 1;
    }
    r
}

impl Clone for Expr {
    fn clone(&self) -> (r: Expr)
        ensures
            r@ == self@,
        decreases self,
    {
        match self {
            Expr::Number(n) => Expr::Number(*n),
            Expr::Bool(b) => Expr::Bool(*b),
            Expr::Str(s) => Expr::Str(s.clone()),
            Expr::Add(l, r) => Expr::Add(Box::new((**l).clone()), Box::new((**r).clone())),
            Expr::Var(name) => Expr::Var(name.clone()),
            Expr::Call(name, args) => {
                let copy = clone_exprs(args);
                proof {
                    lemma_call_view(*name, *args);
                    lemma_call_view(*name, copy);
                }
                Expr::Call(name.clone(), copy)
            },
            Expr::Block(stmts) => {
                let copy = clone_stmts(stmts);
                proof {
                    lemma_block_view(*stmts);
                    lemma_block_view(copy);
                }
                Expr::Block(copy)
            },
            Expr::StructInit(name, fields) => {
                let copy = clone_fields(fields);
                let r = Expr::StructInit(name.clone(), copy);
                assert(r@->StructInit_1 =~= self@->StructInit_1);
                r
            },
            Expr::FieldAccess(base, field) => Expr::FieldAccess(
                Box::new((**base).clone()),
                field.clone(),
            ),
            Expr::If { cond, then_branch, else_branch } => Expr::If {
                cond: Box::new((**cond).clone()),
                then_branch: Box::new((**then_branch).clone()),
                else_branch: match else_branch {
                    Some(b) => Some(Box::new((**b).clone())),
                    None => None,
                },
            },
            Expr::For { var, start, end, body } => Expr::For {
                var: var.clone(),
                start: Box::new((**start).clone()),
                end: Box::new((**end).clone()),
                body: Box::new((**body).clone()),
            },
        }
    }
}

impl Clone for Stmt {
    fn clone(&self) -> (r: Stmt)
        ensures
            r@ == self@,
        decreases self,
    {
        match self {
            Stmt::Expr(e) => Stmt::Expr(e.clone()),
            Stmt::FuncDef { name, params, body } => Stmt::FuncDef {
                name: name.clone(),
                params: clone_texts(params),
                body: Box::new((**body).clone()),
            },
            Stmt::StructDef { name, fields } => Stmt::StructDef {
                name: name.clone(),
                fields: clone_texts(fields),
            },
            Stmt::Let { name, value, mutable, ty } => Stmt::Let {
                name: name.clone(),
                value: value.clone(),
                mutable: *mutable,
                ty: match ty {
                    Some(t) => Some(t.clone()),
                    None => None,
                },
            },
            Stmt::Print(e) => Stmt::Print(Box::new((**e).clone())),
            Stmt::Import(name) => Stmt::Import(name.clone()),
            Stmt::Error(message) => Stmt::Error(message.clone()),
        }
    }
}

} // verus!
