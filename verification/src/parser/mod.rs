//! Syntax analysis: tokens to statements, by recursive descent with one token
//! of lookahead.

pub mod bounds;
pub mod cursor;
pub mod expr;
pub mod func;
pub mod grammar;
pub mod import;
pub mod let_stmt;
pub mod let_text;
pub mod messages;
pub mod print;
pub mod use_stmt;

pub use expr::{parse_expr, parse_term};
pub use func::parse_funcdef;
pub use import::parse_import;
pub use let_stmt::parse_let;
pub use print::parse_print;
pub use use_stmt::parse_use;

use crate::ast::{Stmt, StmtView};
use crate::lexer::Token;
use crate::view::{lemma_views_push, views};
use cursor::{ended, is_at};
use grammar::{first_error, program, remaining, stmt_at, stmts_at};
use vstd::prelude::*;

verus! {

/// Reads one statement: an import, a `print`, a `let`, a function
/// definition, or else an expression.
///
/// An expression that cannot be read yields an `Error` statement, and the
/// cursor rests on the token that could not be accepted.
pub fn parse_stmt(tokens: &[Token], pos: &mut usize) -> (r: Stmt)
    ensures
        r@ == stmt_at(views(tokens@), *old(pos) as nat).value,
        *final(pos) == *old(pos) + stmt_at(views(tokens@), *old(pos) as nat).used,
    decreases remaining(views(tokens@), *old(pos) as nat), 9nat,
{
    if let Some(stmt) = parse_import(tokens, pos) {
        return stmt;
    }
    if let Some(stmt) = parse_use(tokens, pos) {
        return stmt;
    }
    if let Some(stmt) = parse_print(tokens, pos) {
        return stmt;
    }
    if is_at(tokens, *pos, &Token::Let) {
        return parse_let(tokens, pos);
    }
    if is_at(tokens, *pos, &Token::Pub) || is_at(tokens, *pos, &Token::Fn) {
        return parse_funcdef(tokens, pos);
    }
    match parse_expr(tokens, pos) {
        Ok(e) => Stmt::Expr(e),
        Err(e) => Stmt::Error(e.message()),
    }
}

/// The message of the first `Error` token, if there is one.
pub fn find_error(tokens: &[Token]) -> (r: Option<String>)
    ensures
        match r {
            Some(message) => first_error(views(tokens@), 0) == Some(message@),
            None => first_error(views(tokens@), 0) is None,
        },
{
    let ghost ts = views(tokens@);
    let mut i: usize = 0;
    while i < tokens.len()
        invariant
            i <= tokens.len(),
            ts == views(tokens@),
            first_error(ts, 0) == first_error(ts, i as nat),
        decreases tokens.len() - i,
    {
        if let Token::Error(message) = &tokens[i] {
            return Some(message.clone());
        }
        i += 1;
    }
    None
}

/// Reads a whole token sequence into statements.
///
/// A sequence that holds an `Error` token yields one `Error` statement, with
/// that token's message. Otherwise every statement up to `EOF` is read; one
/// that is malformed yields an `Error` statement and reading goes on behind
/// it. No input is refused.
pub fn parse(tokens: &[Token]) -> (stmts: Vec<Stmt>)
    ensures
        views(stmts@) == program(views(tokens@)),
{
    let ghost ts = views(tokens@);
    let mut stmts: Vec<Stmt> = Vec::new();
    if let Some(message) = find_error(tokens) {
        stmts.push(Stmt::Error(message));
        return stmts;
    }
    assert(views(stmts@) =~= Seq::<StmtView>::empty());
    let mut pos: usize = 0;
    while !ended(tokens, pos)
        invariant
            ts == views(tokens@),
            stmts_at(ts, 0, Seq::empty()) == stmts_at(ts, pos as nat, views(stmts@)),
        decreases remaining(ts, pos as nat),
    {
        let ghost before = stmts@;
        let from = pos;
        let stmt = parse_stmt(tokens, &mut pos);
        if pos == from {
            pos += 1;
        }
        stmts.push(stmt);
        proof {
            lemma_views_push(before, stmt);
        }
    }
    stmts
}

} // verus!
