//! `let` statements.

use crate::ast::Stmt;
use crate::lexer::Token;
use crate::parser::cursor::{is_at, name_at};
use crate::parser::expr::parse_expr;
use crate::parser::grammar::{let_at, remaining};
use crate::parser::messages::{LET_NEEDS_KEYWORD, LET_NEEDS_NAME, LET_NEEDS_TYPE, LET_NEEDS_VALUE};
use crate::view::views;
use vstd::prelude::*;

verus! {

/// Reads `let [mut] name [: type] = expr`.
///
/// A statement that is malformed yields an `Error` statement that says what
/// is missing, and the cursor rests on the token that could not be accepted.
pub fn parse_let(tokens: &[Token], pos: &mut usize) -> (r: Stmt)
    ensures
        r@ == let_at(views(tokens@), *old(pos) as nat).value,
        *final(pos) == *old(pos) + let_at(views(tokens@), *old(pos) as nat).used,
    decreases remaining(views(tokens@), *old(pos) as nat), 6nat,
{
    if !is_at(tokens, *pos, &Token::Let) {
        return Stmt::Error(LET_NEEDS_KEYWORD.to_owned());
    }
    *pos += 1;
    let mut mutable = false;
    if is_at(tokens, *pos, &Token::Mut) {
        mutable = true;
        *pos += 1;
    }
    let name = match name_at(tokens, *pos) {
        Some(name) => name,
        None => {
            return Stmt::Error(LET_NEEDS_NAME.to_owned());
        },
    };
    *pos += 1;
    let mut ty: Option<String> = None;
    if is_at(tokens, *pos, &Token::Colon) {
        *pos += 1;
        match name_at(tokens, *pos) {
            Some(t) => {
                ty = Some(t);
                *pos += 1;
            },
            None => {
                return Stmt::Error(LET_NEEDS_TYPE.to_owned());
            },
        }
    }
    if !is_at(tokens, *pos, &Token::Eq) {
        return Stmt::Error(LET_NEEDS_VALUE.to_owned());
    }
    *pos += 1;
    match parse_expr(tokens, pos) {
        Ok(value) => Stmt::Let { name, value, mutable, ty },
        Err(e) => Stmt::Error(e.message()),
    }
}

} // verus!
